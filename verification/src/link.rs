//! Link descriptors: telling the hosting providers apart and turning each
//! kind of link into a URL that can be fetched.
//!
//! Classification reads nothing but the text of the address. Its result is
//! stated over `Descriptor`, the mathematical form of a link, which every
//! `LinkType` is a view of.

use vstd::prelude::*;
use vstd::slice::slice_subrange;
use crate::text::{
    between, chars_of, contains, field, has_char, has_prefix, occurs, occurs_at, push_chars,
    push_str, replace, replaced, string_of, text_between, text_field, view_of,
};

verus! {

/// A classified address, its text held as sequences of characters.
pub enum Descriptor {
    /// A plain web address, fetched as it stands.
    Direct { url: Seq<char> },
    /// A Google Drive file: its id, or the whole address where no id was found.
    GoogleDrive { id: Seq<char> },
    /// A Dropbox share: its id, or the whole address where no id was found.
    Dropbox { id: Seq<char> },
    /// A OneDrive short link.
    OneDrive { url: Seq<char> },
    /// A MediaFire share page.
    MediaFire { url: Seq<char> },
    /// The address of a known provider whose files cannot be resolved here.
    Unsupported { provider: Seq<char>, raw_url: Seq<char> },
    /// Text that is no web address at all.
    Unclassified { raw_text: Seq<char> },
}

/// `s` starts like a web address.
pub open spec fn is_web_url(s: Seq<char>) -> bool {
    "http://"@.is_prefix_of(s) || "https://"@.is_prefix_of(s)
}

/// `s` is addressed to one of the two Google Drive hosts.
pub open spec fn is_google_drive_url(s: Seq<char>) -> bool {
    "https://drive.google.com/"@.is_prefix_of(s)
        || "https://drive.usercontent.google.com/"@.is_prefix_of(s)
}

/// `s` is addressed to one of the two Dropbox hosts.
pub open spec fn is_dropbox_url(s: Seq<char>) -> bool {
    "https://www.dropbox.com/"@.is_prefix_of(s) || "https://dl.dropboxusercontent.com/"@.is_prefix_of(
        s,
    )
}

/// `s` is a OneDrive short link.
pub open spec fn is_onedrive_url(s: Seq<char>) -> bool {
    "https://1drv.ms/"@.is_prefix_of(s)
}

/// `s` is addressed to the MediaFire site.
pub open spec fn is_mediafire_url(s: Seq<char>) -> bool {
    "https://www.mediafire.com/"@.is_prefix_of(s)
}

/// `s` is addressed to Mega, whose links carry their key in the fragment and
/// cannot be resolved from the address alone.
pub open spec fn is_mega_url(s: Seq<char>) -> bool {
    "https://mega.nz/"@.is_prefix_of(s)
}

/// The file id in a Google Drive address: the path segment after `/file/d/`
/// where such a segment is closed by `/`, else the value of a leading `id`
/// query parameter.
pub open spec fn google_drive_id(url: Seq<char>) -> Option<Seq<char>> {
    match text_between(url, "/file/d/"@, "/"@) {
        Some(id) => Some(id),
        None => text_field(url, "?id="@, "&"@),
    }
}

/// The file id in a Google Drive address, looked for also in an `id` query
/// parameter that is not the first one.
pub open spec fn google_drive_id_anywhere(url: Seq<char>) -> Option<Seq<char>> {
    match google_drive_id(url) {
        Some(id) => Some(id),
        None => text_field(url, "&id="@, "&"@),
    }
}

/// The share id in a Dropbox address: the path segment after `/s/`,
/// `/scl/fi/` or `/scl/fo/`, tried in this order, where it is closed by `/`.
pub open spec fn dropbox_id(url: Seq<char>) -> Option<Seq<char>> {
    match text_between(url, "/s/"@, "/"@) {
        Some(id) => Some(id),
        None => match text_between(url, "/scl/fi/"@, "/"@) {
            Some(id) => Some(id),
            None => text_between(url, "/scl/fo/"@, "/"@),
        },
    }
}

/// The value of an `id` parameter is found whichever way it is written: an
/// address that holds `/uc?id=` or `/download?id=` holds `?id=`. Likewise a
/// share on the Dropbox content host, whose address starts with
/// `https://dl.dropboxusercontent.com/scl/fi/`, holds `/scl/fi/`.
pub proof fn lemma_longer_forms_are_covered(url: Seq<char>)
    ensures
        occurs(url, "/uc?id="@) ==> occurs(url, "?id="@),
        occurs(url, "/download?id="@) ==> occurs(url, "?id="@),
        "https://dl.dropboxusercontent.com/scl/fi/"@.is_prefix_of(url) ==> occurs(
            url,
            "/scl/fi/"@,
        ),
{
    reveal_strlit("?id=");
    reveal_strlit("/uc?id=");
    reveal_strlit("/download?id=");
    reveal_strlit("/scl/fi/");
    reveal_strlit("https://dl.dropboxusercontent.com/scl/fi/");
    if occurs(url, "/uc?id="@) {
        let i = choose|i: int| occurs_at(url, "/uc?id="@, i);
        assert(url.subrange(i + 3, i + 7) =~= url.subrange(i, i + 7).subrange(3, 7));
        assert("/uc?id="@.subrange(3, 7) =~= "?id="@);
        assert(occurs_at(url, "?id="@, i + 3));
    }
    if occurs(url, "/download?id="@) {
        let i = choose|i: int| occurs_at(url, "/download?id="@, i);
        assert(url.subrange(i + 9, i + 13) =~= url.subrange(i, i + 13).subrange(9, 13));
        assert("/download?id="@.subrange(9, 13) =~= "?id="@);
        assert(occurs_at(url, "?id="@, i + 9));
    }
    if "https://dl.dropboxusercontent.com/scl/fi/"@.is_prefix_of(url) {
        let prefix = "https://dl.dropboxusercontent.com/scl/fi/"@;
        assert(url.subrange(33, 41) =~= prefix.subrange(33, 41));
        assert(prefix.subrange(33, 41) =~= "/scl/fi/"@);
        assert(occurs_at(url, "/scl/fi/"@, 33));
    }
}

/// What a Google Drive link keeps of an address: the id, or the address.
pub open spec fn google_drive_data(url: Seq<char>) -> Seq<char> {
    match google_drive_id(url) {
        Some(id) => id,
        None => url,
    }
}

/// What a Dropbox link keeps of an address: the id, or the address.
pub open spec fn dropbox_data(url: Seq<char>) -> Seq<char> {
    match dropbox_id(url) {
        Some(id) => id,
        None => url,
    }
}

/// The URL from which a Google Drive file is fetched: the kept address
/// itself, or the download address built round the id.
pub open spec fn google_drive_fetch_url(data: Seq<char>) -> Seq<char> {
    if "https://"@.is_prefix_of(data) {
        data
    } else {
        "https://drive.google.com/uc?export=download&id="@ + data
    }
}

/// The URL from which a Dropbox file is fetched. A kept address has its
/// `?dl=0` flags turned into `?dl=1`, or gets `?dl=1` appended where it has
/// no `?dl=` flag, or is left as it stands. A bare id is put into the share
/// address that downloads.
pub open spec fn dropbox_fetch_url(data: Seq<char>) -> Seq<char> {
    if "https://"@.is_prefix_of(data) {
        if occurs(data, "?dl=0"@) {
            replaced(data, "?dl=0"@, "?dl=1"@)
        } else if !occurs(data, "?dl="@) {
            data + "?dl=1"@
        } else {
            data
        }
    } else {
        "https://www.dropbox.com/s/"@ + data + "?dl=1"@
    }
}

/// The descriptor of an address. The provider hosts are tried first, in a
/// fixed order; any other web address is direct; anything else is not a link.
pub open spec fn classify(raw: Seq<char>) -> Descriptor {
    if is_google_drive_url(raw) {
        Descriptor::GoogleDrive { id: google_drive_data(raw) }
    } else if is_dropbox_url(raw) {
        Descriptor::Dropbox { id: dropbox_data(raw) }
    } else if is_onedrive_url(raw) {
        Descriptor::OneDrive { url: raw }
    } else if is_mediafire_url(raw) {
        Descriptor::MediaFire { url: raw }
    } else if is_mega_url(raw) {
        Descriptor::Unsupported { provider: "Mega"@, raw_url: raw }
    } else if is_web_url(raw) {
        Descriptor::Direct { url: raw }
    } else {
        Descriptor::Unclassified { raw_text: raw }
    }
}

/// Classification depends on the text alone, and classifying again changes
/// nothing: a descriptor that keeps the whole address classifies to itself.
/// Every descriptor keeps the whole address but those of Google Drive and
/// Dropbox in which an id was found.
pub proof fn lemma_classification_is_stable(raw: Seq<char>)
    ensures
        classify(raw).text() == raw ==> classify(classify(raw).text()) == classify(raw),
        !(classify(raw) is GoogleDrive) && !(classify(raw) is Dropbox) ==> classify(raw).text()
            == raw,
        classify(raw) is GoogleDrive && google_drive_id(raw) is None ==> classify(raw).text()
            == raw,
        classify(raw) is Dropbox && dropbox_id(raw) is None ==> classify(raw).text() == raw,
{
}

impl Descriptor {
    /// Whether a file can be fetched through this link.
    pub open spec fn downloadable(self) -> bool {
        !(self is Unsupported) && !(self is Unclassified)
    }

    /// The text the descriptor carries: an address, an id or the raw text.
    pub open spec fn text(self) -> Seq<char> {
        match self {
            Descriptor::Direct { url } => url,
            Descriptor::GoogleDrive { id } => id,
            Descriptor::Dropbox { id } => id,
            Descriptor::OneDrive { url } => url,
            Descriptor::MediaFire { url } => url,
            Descriptor::Unsupported { raw_url, .. } => raw_url,
            Descriptor::Unclassified { raw_text } => raw_text,
        }
    }

    /// The name of the descriptor's kind.
    pub open spec fn kind(self) -> Seq<char> {
        match self {
            Descriptor::Direct { .. } => "Direct"@,
            Descriptor::GoogleDrive { .. } => "GoogleDrive"@,
            Descriptor::Dropbox { .. } => "Dropbox"@,
            Descriptor::OneDrive { .. } => "OneDrive"@,
            Descriptor::MediaFire { .. } => "MediaFire"@,
            Descriptor::Unsupported { .. } => "Unsupported"@,
            Descriptor::Unclassified { .. } => "Unclassified"@,
        }
    }

    /// The URL to fetch, worked out without touching the network. `None` for
    /// what cannot be downloaded.
    pub open spec fn fetch_url(self) -> Option<Seq<char>> {
        match self {
            Descriptor::Direct { url } => Some(url),
            Descriptor::GoogleDrive { id } => Some(google_drive_fetch_url(id)),
            Descriptor::Dropbox { id } => Some(dropbox_fetch_url(id)),
            Descriptor::OneDrive { url } => Some(url),
            Descriptor::MediaFire { url } => Some(url),
            Descriptor::Unsupported { .. } => None,
            Descriptor::Unclassified { .. } => None,
        }
    }
}

/// A web address that is fetched as it stands.
#[derive(Debug, Clone)]
pub struct DirectLink {
    pub url: String,
}

/// A Google Drive file, by id or by its whole address.
#[derive(Debug, Clone)]
pub struct GoogleDriveLink {
    pub share_id: String,
}

/// A Dropbox share, by id or by its whole address.
#[derive(Debug, Clone)]
pub struct DropboxLink {
    pub share_id: String,
}

/// A OneDrive short link.
#[derive(Debug, Clone)]
pub struct OneDriveLink {
    pub url: String,
}

/// A MediaFire share page.
#[derive(Debug, Clone)]
pub struct MediaFireLink {
    pub url: String,
}

/// What the five kinds of downloadable link have in common.
pub trait LinkTypeTrait: Sized {
    /// The descriptor this link stands for.
    spec fn descriptor(&self) -> Descriptor;

    /// The descriptor of `url` where it is an address of this kind.
    spec fn recognize(url: Seq<char>) -> Option<Descriptor>;

    fn is_downloadable(&self) -> (b: bool)
        ensures
            b == self.descriptor().downloadable(),
    ;

    fn get_direct_url(&self) -> (r: Option<String>)
        ensures
            view_of(r) == self.descriptor().fetch_url(),
    ;

    fn get_url(&self) -> (r: &str)
        ensures
            r@ == self.descriptor().text(),
    ;

    fn get_type_name(&self) -> (r: &'static str)
        ensures
            r@ == self.descriptor().kind(),
    ;

    fn from_url(url: &str) -> (r: Option<Self>)
        ensures
            match r {
                Some(link) => Self::recognize(url@) == Some(link.descriptor()),
                None => Self::recognize(url@) is None,
            },
    ;
}

impl DropboxLink {
    /// The URL from which the shared file is fetched.
    pub fn download_url(&self) -> (url: String)
        ensures
            url@ == dropbox_fetch_url(self.share_id@),
    {
        let data = chars_of(self.share_id.as_str());
        if has_prefix(data.as_slice(), "https://") {
            if contains(data.as_slice(), "?dl=0") {
                let out = replace(data.as_slice(), "?dl=0", "?dl=1");
                string_of(out.as_slice())
            } else if !contains(data.as_slice(), "?dl=") {
                let mut out: Vec<char> = Vec::new();
                push_chars(&mut out, data.as_slice());
                push_str(&mut out, "?dl=1");
                string_of(out.as_slice())
            } else {
                self.share_id.clone()
            }
        } else {
            let mut out: Vec<char> = Vec::new();
            push_str(&mut out, "https://www.dropbox.com/s/");
            push_chars(&mut out, data.as_slice());
            push_str(&mut out, "?dl=1");
            string_of(out.as_slice())
        }
    }
}

impl GoogleDriveLink {
    /// The URL from which the file is fetched.
    pub fn download_url(&self) -> (url: String)
        ensures
            url@ == google_drive_fetch_url(self.share_id@),
    {
        let data = chars_of(self.share_id.as_str());
        if has_prefix(data.as_slice(), "https://") {
            self.share_id.clone()
        } else {
            let mut out: Vec<char> = Vec::new();
            push_str(&mut out, "https://drive.google.com/uc?export=download&id=");
            push_chars(&mut out, data.as_slice());
            string_of(out.as_slice())
        }
    }
}

impl LinkTypeTrait for DirectLink {
    open spec fn descriptor(&self) -> Descriptor {
        Descriptor::Direct { url: self.url@ }
    }

    open spec fn recognize(url: Seq<char>) -> Option<Descriptor> {
        if is_web_url(url) {
            Some(Descriptor::Direct { url })
        } else {
            None
        }
    }

    fn is_downloadable(&self) -> (b: bool) {
        true
    }

    fn get_direct_url(&self) -> (r: Option<String>) {
        Some(self.url.clone())
    }

    fn get_url(&self) -> (r: &str) {
        self.url.as_str()
    }

    fn get_type_name(&self) -> (r: &'static str) {
        "Direct"
    }

    fn from_url(url: &str) -> (r: Option<Self>) {
        let text = chars_of(url);
        if has_prefix(text.as_slice(), "http://") || has_prefix(text.as_slice(), "https://") {
            Some(DirectLink { url: string_of(text.as_slice()) })
        } else {
            None
        }
    }
}

impl LinkTypeTrait for GoogleDriveLink {
    open spec fn descriptor(&self) -> Descriptor {
        Descriptor::GoogleDrive { id: self.share_id@ }
    }

    open spec fn recognize(url: Seq<char>) -> Option<Descriptor> {
        if is_google_drive_url(url) {
            Some(Descriptor::GoogleDrive { id: google_drive_data(url) })
        } else {
            None
        }
    }

    fn is_downloadable(&self) -> (b: bool) {
        true
    }

    fn get_direct_url(&self) -> (r: Option<String>) {
        Some(self.download_url())
    }

    fn get_url(&self) -> (r: &str) {
        self.share_id.as_str()
    }

    fn get_type_name(&self) -> (r: &'static str) {
        "GoogleDrive"
    }

    fn from_url(url: &str) -> (r: Option<Self>) {
        let text = chars_of(url);
        if has_prefix(text.as_slice(), "https://drive.google.com/") || has_prefix(
            text.as_slice(),
            "https://drive.usercontent.google.com/",
        ) {
            match extract_google_drive_id(url) {
                Some(id) => Some(GoogleDriveLink { share_id: id }),
                None => Some(GoogleDriveLink { share_id: string_of(text.as_slice()) }),
            }
        } else {
            None
        }
    }
}

impl LinkTypeTrait for DropboxLink {
    open spec fn descriptor(&self) -> Descriptor {
        Descriptor::Dropbox { id: self.share_id@ }
    }

    open spec fn recognize(url: Seq<char>) -> Option<Descriptor> {
        if is_dropbox_url(url) {
            Some(Descriptor::Dropbox { id: dropbox_data(url) })
        } else {
            None
        }
    }

    fn is_downloadable(&self) -> (b: bool) {
        true
    }

    fn get_direct_url(&self) -> (r: Option<String>) {
        Some(self.download_url())
    }

    fn get_url(&self) -> (r: &str) {
        self.share_id.as_str()
    }

    fn get_type_name(&self) -> (r: &'static str) {
        "Dropbox"
    }

    fn from_url(url: &str) -> (r: Option<Self>) {
        let text = chars_of(url);
        if has_prefix(text.as_slice(), "https://www.dropbox.com/") || has_prefix(
            text.as_slice(),
            "https://dl.dropboxusercontent.com/",
        ) {
            match extract_dropbox_id(url) {
                Some(id) => Some(DropboxLink { share_id: id }),
                None => Some(DropboxLink { share_id: string_of(text.as_slice()) }),
            }
        } else {
            None
        }
    }
}

impl LinkTypeTrait for OneDriveLink {
    open spec fn descriptor(&self) -> Descriptor {
        Descriptor::OneDrive { url: self.url@ }
    }

    open spec fn recognize(url: Seq<char>) -> Option<Descriptor> {
        if is_onedrive_url(url) {
            Some(Descriptor::OneDrive { url })
        } else {
            None
        }
    }

    fn is_downloadable(&self) -> (b: bool) {
        true
    }

    fn get_direct_url(&self) -> (r: Option<String>) {
        Some(self.url.clone())
    }

    fn get_url(&self) -> (r: &str) {
        self.url.as_str()
    }

    fn get_type_name(&self) -> (r: &'static str) {
        "OneDrive"
    }

    fn from_url(url: &str) -> (r: Option<Self>) {
        let text = chars_of(url);
        if has_prefix(text.as_slice(), "https://1drv.ms/") {
            Some(OneDriveLink { url: string_of(text.as_slice()) })
        } else {
            None
        }
    }
}

impl LinkTypeTrait for MediaFireLink {
    open spec fn descriptor(&self) -> Descriptor {
        Descriptor::MediaFire { url: self.url@ }
    }

    open spec fn recognize(url: Seq<char>) -> Option<Descriptor> {
        if is_mediafire_url(url) {
            Some(Descriptor::MediaFire { url })
        } else {
            None
        }
    }

    fn is_downloadable(&self) -> (b: bool) {
        true
    }

    fn get_direct_url(&self) -> (r: Option<String>) {
        Some(self.url.clone())
    }

    fn get_url(&self) -> (r: &str) {
        self.url.as_str()
    }

    fn get_type_name(&self) -> (r: &'static str) {
        "MediaFire"
    }

    fn from_url(url: &str) -> (r: Option<Self>) {
        let text = chars_of(url);
        if has_prefix(text.as_slice(), "https://www.mediafire.com/") {
            Some(MediaFireLink { url: string_of(text.as_slice()) })
        } else {
            None
        }
    }
}

/// A classified address: one of the five downloadable kinds, a link of a
/// provider that cannot be resolved, or text that is no link.
#[derive(Debug, Clone)]
pub enum LinkType {
    Direct(DirectLink),
    GoogleDrive(GoogleDriveLink),
    Dropbox(DropboxLink),
    OneDrive(OneDriveLink),
    MediaFire(MediaFireLink),
    Unsupported { provider: String, raw_url: String },
    Unclassified { raw_text: String },
}

impl View for LinkType {
    type V = Descriptor;

    open spec fn view(&self) -> Descriptor {
        match self {
            LinkType::Direct(link) => link.descriptor(),
            LinkType::GoogleDrive(link) => link.descriptor(),
            LinkType::Dropbox(link) => link.descriptor(),
            LinkType::OneDrive(link) => link.descriptor(),
            LinkType::MediaFire(link) => link.descriptor(),
            LinkType::Unsupported { provider, raw_url } => Descriptor::Unsupported {
                provider: provider@,
                raw_url: raw_url@,
            },
            LinkType::Unclassified { raw_text } => Descriptor::Unclassified {
                raw_text: raw_text@,
            },
        }
    }
}

impl LinkType {
    /// Whether a file can be fetched through this link.
    pub fn is_downloadable(&self) -> (b: bool)
        ensures
            b == self@.downloadable(),
    {
        match self {
            LinkType::Unsupported { .. } => false,
            LinkType::Unclassified { .. } => false,
            _ => true,
        }
    }

    /// The URL to fetch, worked out without touching the network.
    pub fn get_direct_url(&self) -> (r: Option<String>)
        ensures
            view_of(r) == self@.fetch_url(),
    {
        match self {
            LinkType::Direct(link) => link.get_direct_url(),
            LinkType::GoogleDrive(link) => link.get_direct_url(),
            LinkType::Dropbox(link) => link.get_direct_url(),
            LinkType::OneDrive(link) => link.get_direct_url(),
            LinkType::MediaFire(link) => link.get_direct_url(),
            LinkType::Unsupported { .. } => None,
            LinkType::Unclassified { .. } => None,
        }
    }

    /// The text the link carries: an address, an id or the raw text.
    pub fn get_url(&self) -> (r: &str)
        ensures
            r@ == self@.text(),
    {
        match self {
            LinkType::Direct(link) => link.get_url(),
            LinkType::GoogleDrive(link) => link.get_url(),
            LinkType::Dropbox(link) => link.get_url(),
            LinkType::OneDrive(link) => link.get_url(),
            LinkType::MediaFire(link) => link.get_url(),
            LinkType::Unsupported { raw_url, .. } => raw_url.as_str(),
            LinkType::Unclassified { raw_text } => raw_text.as_str(),
        }
    }

    /// The name of the link's kind.
    pub fn get_type_name(&self) -> (r: &'static str)
        ensures
            r@ == self@.kind(),
    {
        match self {
            LinkType::Direct(link) => link.get_type_name(),
            LinkType::GoogleDrive(link) => link.get_type_name(),
            LinkType::Dropbox(link) => link.get_type_name(),
            LinkType::OneDrive(link) => link.get_type_name(),
            LinkType::MediaFire(link) => link.get_type_name(),
            LinkType::Unsupported { .. } => "Unsupported",
            LinkType::Unclassified { .. } => "Unclassified",
        }
    }
}

/// Classifies an address. The result depends on the text alone.
pub fn create_link_from_url(url: &str) -> (link: LinkType)
    ensures
        link@ == classify(url@),
{
    if let Some(link) = GoogleDriveLink::from_url(url) {
        LinkType::GoogleDrive(link)
    } else if let Some(link) = DropboxLink::from_url(url) {
        LinkType::Dropbox(link)
    } else if let Some(link) = OneDriveLink::from_url(url) {
        LinkType::OneDrive(link)
    } else if let Some(link) = MediaFireLink::from_url(url) {
        LinkType::MediaFire(link)
    } else {
        let text = chars_of(url);
        if has_prefix(text.as_slice(), "https://mega.nz/") {
            let provider = chars_of("Mega");
            LinkType::Unsupported {
                provider: string_of(provider.as_slice()),
                raw_url: string_of(text.as_slice()),
            }
        } else if let Some(link) = DirectLink::from_url(url) {
            LinkType::Direct(link)
        } else {
            LinkType::Unclassified { raw_text: string_of(text.as_slice()) }
        }
    }
}

/// The file id in a Google Drive address.
pub fn extract_google_drive_id(url: &str) -> (r: Option<String>)
    ensures
        view_of(r) == google_drive_id(url@),
{
    let text = chars_of(url);
    match between(text.as_slice(), "/file/d/", "/") {
        Some(id) => Some(string_of(id)),
        None => match field(text.as_slice(), "?id=", "&") {
            Some(id) => Some(string_of(id)),
            None => None,
        },
    }
}

/// The file id in a Google Drive address, looked for also in an `id` query
/// parameter that is not the first one.
pub fn extract_google_drive_id_from_url(url: &str) -> (r: Option<String>)
    ensures
        view_of(r) == google_drive_id_anywhere(url@),
{
    match extract_google_drive_id(url) {
        Some(id) => Some(id),
        None => {
            let text = chars_of(url);
            match field(text.as_slice(), "&id=", "&") {
                Some(id) => Some(string_of(id)),
                None => None,
            }
        },
    }
}

/// The share id in a Dropbox address.
pub fn extract_dropbox_id(url: &str) -> (r: Option<String>)
    ensures
        view_of(r) == dropbox_id(url@),
{
    let text = chars_of(url);
    match between(text.as_slice(), "/s/", "/") {
        Some(id) => Some(string_of(id)),
        None => match between(text.as_slice(), "/scl/fi/", "/") {
            Some(id) => Some(string_of(id)),
            None => match between(text.as_slice(), "/scl/fo/", "/") {
                Some(id) => Some(string_of(id)),
                None => None,
            },
        },
    }
}

/// A web address with a dot somewhere after its scheme.
pub open spec fn valid_url(url: Seq<char>) -> bool {
    ||| "http://"@.is_prefix_of(url) && url.skip("http://"@.len() as int).contains('.')
    ||| "https://"@.is_prefix_of(url) && url.skip("https://"@.len() as int).contains('.')
}

/// Whether `url` is a web address with a dot somewhere after its scheme.
pub fn is_valid_url(url: &str) -> (b: bool)
    ensures
        b == valid_url(url@),
{
    let text = chars_of(url);
    let end = text.len();
    if has_prefix(text.as_slice(), "http://") {
        proof {
            lemma_not_both_schemes(url@);
        }
        let scheme = chars_of("http://").len();
        has_char(slice_subrange(text.as_slice(), scheme, end), '.')
    } else if has_prefix(text.as_slice(), "https://") {
        let scheme = chars_of("https://").len();
        has_char(slice_subrange(text.as_slice(), scheme, end), '.')
    } else {
        false
    }
}

/// No text starts with both schemes.
proof fn lemma_not_both_schemes(url: Seq<char>)
    ensures
        !("http://"@.is_prefix_of(url) && "https://"@.is_prefix_of(url)),
{
    reveal_strlit("http://");
    reveal_strlit("https://");
    if "http://"@.is_prefix_of(url) && "https://"@.is_prefix_of(url) {
        assert(url[4] == "https://"@[4]);
    }
}

} // verus!
