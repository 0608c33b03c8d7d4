//! From a link to the URL that is fetched: what is read out of the pages and
//! headers that the providers send, and what is asked of the network next.
//!
//! Nothing here touches the network. The caller performs each request and
//! hands back what it received.

use vstd::prelude::*;
use vstd::slice::slice_subrange;
use crate::link::{
    dropbox_fetch_url, extract_google_drive_id_from_url, google_drive_id_anywhere, Descriptor,
    LinkType,
};
use crate::text::{
    after, before, between, chars_of, chars_view_of, contains, field, first_index, has_char,
    has_prefix, last_index, last_position, matches_at, occurs, occurs_at, position, push_chars,
    push_str, string_of, text_after, text_before, text_between, text_field, text_up_to, up_to,
    view_of,
};

verus! {

/// How many redirects are followed while a Google Drive file is fetched.
pub const GOOGLE_DRIVE_REDIRECT_LIMIT: usize = 10;

/// How many redirects are followed while a OneDrive short link is resolved.
pub const ONEDRIVE_REDIRECT_LIMIT: usize = 5;

/// The download address that a confirmation page carries in its hidden form
/// fields `id`, `export`, `confirm` and `uuid`. `None` unless all four are
/// there, each closed by a quote.
pub open spec fn confirmed_download_url(html: Seq<char>) -> Option<Seq<char>> {
    match (
        text_between(html, "name=\"id\" value=\""@, "\""@),
        text_between(html, "name=\"export\" value=\""@, "\""@),
        text_between(html, "name=\"confirm\" value=\""@, "\""@),
        text_between(html, "name=\"uuid\" value=\""@, "\""@),
    ) {
        (Some(id), Some(export), Some(confirm), Some(uuid)) => Some(
            "https://drive.usercontent.google.com/download?id="@ + id + "&export="@ + export
                + "&confirm="@ + confirm + "&uuid="@ + uuid,
        ),
        _ => None,
    }
}

/// The token that follows the first `confirm=` in a page: it runs to the next
/// `&`, else to the next quote, else to the end. Empty where the page has no
/// `confirm=`.
pub open spec fn confirm_token(html: Seq<char>) -> Seq<char> {
    match text_after(html, "confirm="@) {
        Some(rest) => match text_before(rest, "&"@) {
            Some(token) => token,
            None => text_up_to(rest, "\""@),
        },
        None => Seq::empty(),
    }
}

/// The file name shown on a page: the text between the first `>` and the next
/// `<`, where it has a dot and no space.
pub open spec fn html_filename(html: Seq<char>) -> Option<Seq<char>> {
    match text_between(html, ">"@, "<"@) {
        Some(name) => if name.contains('.') && !name.contains(' ') {
            Some(name)
        } else {
            None
        },
        None => None,
    }
}

/// The file name of the extended form `filename*=UTF-8''name`.
pub open spec fn extended_filename(disposition: Seq<char>) -> Option<Seq<char>> {
    text_field(disposition, "filename*=UTF-8''"@, ";"@)
}

/// The file name in a `Content-Disposition` header. After `filename=` a
/// quoted name runs to the closing quote and a bare one to the next `;` or
/// the end. Where there is no `filename=`, or its quote is never closed, the
/// extended form is tried.
pub open spec fn disposition_filename(disposition: Seq<char>) -> Option<Seq<char>> {
    match text_after(disposition, "filename="@) {
        Some(part) => if part.len() > 0 && part[0] == '"' {
            match text_before(part.skip(1), "\""@) {
                Some(name) => Some(name),
                None => extended_filename(disposition),
            }
        } else {
            Some(text_up_to(part, ";"@))
        },
        None => extended_filename(disposition),
    }
}

/// The address in the last `href="` before the first `download_link` marker
/// of a page, where it is closed by a quote and starts with `http`.
pub open spec fn marked_download_link(html: Seq<char>) -> Option<Seq<char>> {
    match first_index(html, "download_link"@) {
        Some(mark) => match last_index(html.take(mark), "href=\""@) {
            Some(href) => match text_before(html.skip(href + "href=\""@.len()), "\""@) {
                Some(url) => if "http"@.is_prefix_of(url) {
                    Some(url)
                } else {
                    None
                },
                None => None,
            },
            None => None,
        },
        None => None,
    }
}

/// A text that may be taken for a download address: it holds `download` and
/// one of `mediafire` and `dl`.
pub open spec fn looks_like_download(url: Seq<char>) -> bool {
    occurs(url, "download"@) && (occurs(url, "mediafire"@) || occurs(url, "dl"@))
}

/// The address that the occurrence of `http` at index `at` of a page gives:
/// the text from there to the next quote, where it looks like a download
/// address. `None` where no `http` stands at `at`, no quote follows, or the
/// text does not look like one.
pub open spec fn rescued_at(html: Seq<char>, at: int) -> Option<Seq<char>> {
    if occurs_at(html, "http"@, at) {
        match text_before(html.skip(at), "\""@) {
            Some(url) => if looks_like_download(url) {
                Some(url)
            } else {
                None
            },
            None => None,
        }
    } else {
        None
    }
}

/// `at` is the first index of a page at which an occurrence of `http` gives
/// an address.
pub open spec fn first_rescue_at(html: Seq<char>, at: int) -> bool {
    &&& rescued_at(html, at) is Some
    &&& forall|j: int| 0 <= j < at ==> rescued_at(html, j) is None
}

/// The address that is rescued from a page: every occurrence of `http` is
/// looked at, from left to right, and the first that gives an address gives
/// this one. `None` only where none of them gives one.
pub open spec fn rescued_download_link(html: Seq<char>) -> Option<Seq<char>> {
    if exists|at: int| rescued_at(html, at) is Some {
        rescued_at(html, choose|at: int| first_rescue_at(html, at))
    } else {
        None
    }
}

/// The first occurrence that gives an address is unique: whoever finds it
/// has found the rescued address.
pub proof fn lemma_rescue_is(html: Seq<char>, at: int)
    requires
        first_rescue_at(html, at),
    ensures
        rescued_download_link(html) == rescued_at(html, at),
{
    let k = choose|k: int| first_rescue_at(html, k);
    assert(first_rescue_at(html, k));
    assert(rescued_at(html, k) is Some ==> 0 <= k);
    assert(k == at);
}

/// Among the occurrences up to one that gives an address there is a first
/// that does.
proof fn lemma_first_rescue(html: Seq<char>, bound: int) -> (at: int)
    requires
        rescued_at(html, bound) is Some,
    ensures
        first_rescue_at(html, at),
        at <= bound,
    decreases bound,
{
    if exists|j: int| 0 <= j < bound && rescued_at(html, j) is Some {
        let j = choose|j: int| 0 <= j < bound && rescued_at(html, j) is Some;
        lemma_first_rescue(html, j)
    } else {
        bound
    }
}

/// The rescued address is the one that the first occurrence of `http` which
/// gives an address gives, and there is none exactly where no occurrence
/// gives one.
pub proof fn lemma_rescued_download_link(html: Seq<char>)
    ensures
        match rescued_download_link(html) {
            Some(url) => exists|at: int|
                first_rescue_at(html, at) && rescued_at(html, at) == Some(url),
            None => forall|at: int| rescued_at(html, at) is None,
        },
{
    if exists|at: int| rescued_at(html, at) is Some {
        let w = choose|at: int| rescued_at(html, at) is Some;
        let at = lemma_first_rescue(html, w);
        lemma_rescue_is(html, at);
    }
}

/// The download address on a MediaFire page: the marked one, else the
/// rescued one.
pub open spec fn mediafire_download_url(html: Seq<char>) -> Option<Seq<char>> {
    match marked_download_link(html) {
        Some(url) => Some(url),
        None => rescued_download_link(html),
    }
}

/// The address that is probed first for a Google Drive file.
pub open spec fn drive_probe_url(file_id: Seq<char>) -> Seq<char> {
    "https://drive.google.com/uc?export=download&id="@ + file_id
}

/// The address from which a Google Drive file is fetched once the probe has
/// been answered with `body`: the address in the hidden form fields, else the
/// download address with the page's confirmation token, else the probe
/// address itself.
pub open spec fn drive_final_url(file_id: Seq<char>, body: Seq<char>) -> Seq<char> {
    match confirmed_download_url(body) {
        Some(url) => url,
        None => if confirm_token(body).len() == 0 {
            drive_probe_url(file_id)
        } else {
            "https://drive.google.com/uc?export=download&confirm="@ + confirm_token(body)
                + "&id="@ + file_id
        },
    }
}

/// The name under which a Google Drive file is saved: the name in the
/// response's `Content-Disposition` header, else the name found on the probe
/// page. `None` leaves the caller's own name in place.
pub open spec fn drive_filename(
    disposition: Option<Seq<char>>,
    page_name: Option<Seq<char>>,
) -> Option<Seq<char>> {
    match disposition {
        Some(header) => match disposition_filename(header) {
            Some(name) => Some(name),
            None => page_name,
        },
        None => page_name,
    }
}

/// The download address in the hidden form fields of a confirmation page.
pub fn extract_download_url_from_html(html_content: &str) -> (r: Option<String>)
    ensures
        view_of(r) == confirmed_download_url(html_content@),
{
    let html = chars_of(html_content);
    let id = between(html.as_slice(), "name=\"id\" value=\"", "\"");
    let export = between(html.as_slice(), "name=\"export\" value=\"", "\"");
    let confirm = between(html.as_slice(), "name=\"confirm\" value=\"", "\"");
    let uuid = between(html.as_slice(), "name=\"uuid\" value=\"", "\"");
    match (id, export, confirm, uuid) {
        (Some(id), Some(export), Some(confirm), Some(uuid)) => {
            let mut url: Vec<char> = Vec::new();
            push_str(&mut url, "https://drive.usercontent.google.com/download?id=");
            push_chars(&mut url, id);
            push_str(&mut url, "&export=");
            push_chars(&mut url, export);
            push_str(&mut url, "&confirm=");
            push_chars(&mut url, confirm);
            push_str(&mut url, "&uuid=");
            push_chars(&mut url, uuid);
            Some(string_of(url.as_slice()))
        },
        _ => None,
    }
}

/// The confirmation token of a page, empty where it has none.
pub fn extract_confirm_token_from_html(html_content: &str) -> (token: String)
    ensures
        token@ == confirm_token(html_content@),
{
    let html = chars_of(html_content);
    match after(html.as_slice(), "confirm=") {
        Some(rest) => match before(rest, "&") {
            Some(token) => string_of(token),
            None => string_of(up_to(rest, "\"")),
        },
        None => String::new(),
    }
}

/// The file name shown on a page.
pub fn extract_filename_from_html(html_content: &str) -> (r: Option<String>)
    ensures
        view_of(r) == html_filename(html_content@),
{
    let html = chars_of(html_content);
    match between(html.as_slice(), ">", "<") {
        Some(name) => if has_char(name, '.') && !has_char(name, ' ') {
            Some(string_of(name))
        } else {
            None
        },
        None => None,
    }
}

/// The file name in a `Content-Disposition` header.
pub fn extract_filename_from_disposition(disposition: &str) -> (r: Option<String>)
    ensures
        view_of(r) == disposition_filename(disposition@),
{
    let text = chars_of(disposition);
    match after(text.as_slice(), "filename=") {
        Some(part) => {
            let end = part.len();
            if end > 0 && part[0] == '"' {
                match before(slice_subrange(part, 1, end), "\"") {
                    Some(name) => {
                        return Some(string_of(name));
                    },
                    None => {},
                }
            } else {
                return Some(string_of(up_to(part, ";")));
            }
        },
        None => {},
    }
    match field(text.as_slice(), "filename*=UTF-8''", ";") {
        Some(name) => Some(string_of(name)),
        None => None,
    }
}

/// The download address on a MediaFire page.
pub fn extract_mediafire_download_url(html_content: &str) -> (r: Option<String>)
    ensures
        view_of(r) == mediafire_download_url(html_content@),
{
    let html = chars_of(html_content);
    match marked_link(html.as_slice()) {
        Some(url) => Some(string_of(url)),
        None => match rescued_link(html.as_slice()) {
            Some(url) => Some(string_of(url)),
            None => None,
        },
    }
}

/// The address that is rescued from a page.
fn rescued_link<'a>(html: &'a [char]) -> (r: Option<&'a [char]>)
    ensures
        chars_view_of(r) == rescued_download_link(html@),
{
    let marker = chars_of("http");
    let end = html.len();
    let mut at: usize = 0;
    while at < end
        invariant
            at <= end,
            end == html.len(),
            marker@ == "http"@,
            forall|j: int| 0 <= j < at ==> rescued_at(html@, j) is None,
        decreases end - at,
    {
        if matches_at(html, marker.as_slice(), at) {
            assert(html@.subrange(at as int, end as int) == html@.skip(at as int));
            match before(slice_subrange(html, at, end), "\"") {
                Some(url) => if contains(url, "download") && (contains(url, "mediafire")
                    || contains(url, "dl")) {
                    proof {
                        lemma_rescue_is(html@, at as int);
                    }
                    return Some(url);
                },
                None => {},
            }
        }
        at += 1;
    }
    proof {
        reveal_strlit("http");
        assert forall|j: int| rescued_at(html@, j) is None by {
            if j >= end {
                assert(!occurs_at(html@, "http"@, j));
            }
        }
    }
    None
}

/// The address in the last `href="` before the first `download_link` marker.
fn marked_link<'a>(html: &'a [char]) -> (r: Option<&'a [char]>)
    ensures
        match r {
            Some(url) => marked_download_link(html@) == Some(url@),
            None => marked_download_link(html@) is None,
        },
{
    let end = html.len();
    match position(html, "download_link") {
        Some(mark) => {
            match last_position(slice_subrange(html, 0, mark), "href=\"") {
                Some(href) => {
                    let start = href + chars_of("href=\"").len();
                    match before(slice_subrange(html, start, end), "\"") {
                        Some(url) => if has_prefix(url, "http") {
                            Some(url)
                        } else {
                            None
                        },
                        None => None,
                    }
                },
                None => None,
            }
        },
        None => None,
    }
}

/// Where a Google Drive download stands.
#[derive(Debug)]
pub enum DriveState {
    /// Nothing has been asked for.
    Start,
    /// The probe has been asked for.
    Probing,
    /// The file has been asked for. `page_name` is the file name that the
    /// probe page showed.
    Fetching { page_name: Option<String> },
    /// Nothing is left to do.
    Finished,
}

/// What the caller reports to a Google Drive download.
#[derive(Debug)]
pub enum DriveEvent {
    /// The download is to begin.
    Begin,
    /// The probe was answered with this text.
    ProbeBody { body: String },
    /// The file request was answered; `disposition` is the response's
    /// `Content-Disposition` header.
    ResponseHeader { disposition: Option<String> },
}

/// What a Google Drive download asks of the caller.
#[derive(Debug)]
pub enum DriveAction {
    /// Get the page at `url` and report its text.
    Probe { url: String },
    /// Request the file at `url` and report the response's header.
    Fetch { url: String },
    /// Write the response's bytes under `filename` beside the caller's own
    /// target, or to that target where `filename` is `None`.
    Save { filename: Option<String> },
    /// The event does not belong to the state: give up.
    Abort,
}

/// The step that a Google Drive download takes on an event.
pub open spec fn drive_step(
    file_id: Seq<char>,
    state: DriveState,
    event: DriveEvent,
    next: DriveState,
    action: DriveAction,
) -> bool {
    match (state, event) {
        (DriveState::Start, DriveEvent::Begin) => {
            &&& next is Probing
            &&& action matches DriveAction::Probe { url }
            &&& url@ == drive_probe_url(file_id)
        },
        (DriveState::Probing, DriveEvent::ProbeBody { body }) => {
            &&& next matches DriveState::Fetching { page_name }
            &&& view_of(page_name) == html_filename(body@)
            &&& action matches DriveAction::Fetch { url }
            &&& url@ == drive_final_url(file_id, body@)
        },
        (DriveState::Fetching { page_name }, DriveEvent::ResponseHeader { disposition }) => {
            &&& next is Finished
            &&& action matches DriveAction::Save { filename }
            &&& view_of(filename) == drive_filename(view_of(disposition), view_of(page_name))
        },
        _ => next is Finished && action is Abort,
    }
}

/// Advances the download of the Google Drive file `file_id`: probe, fetch
/// from the address that the probe page leads to, save under the best name.
pub fn download_google_drive_file(file_id: &str, state: DriveState, event: DriveEvent) -> (r: (
    DriveState,
    DriveAction,
))
    ensures
        drive_step(file_id@, state, event, r.0, r.1),
{
    match (state, event) {
        (DriveState::Start, DriveEvent::Begin) => {
            (DriveState::Probing, DriveAction::Probe { url: google_drive_probe_url(file_id) })
        },
        (DriveState::Probing, DriveEvent::ProbeBody { body }) => {
            let url = google_drive_final_url(file_id, body.as_str());
            let page_name = extract_filename_from_html(body.as_str());
            (DriveState::Fetching { page_name }, DriveAction::Fetch { url })
        },
        (DriveState::Fetching { page_name }, DriveEvent::ResponseHeader { disposition }) => {
            let from_header = match &disposition {
                Some(header) => extract_filename_from_disposition(header.as_str()),
                None => None,
            };
            let filename = match from_header {
                Some(name) => Some(name),
                None => page_name,
            };
            (DriveState::Finished, DriveAction::Save { filename })
        },
        _ => (DriveState::Finished, DriveAction::Abort),
    }
}

/// The address that is probed first for a Google Drive file.
pub fn google_drive_probe_url(file_id: &str) -> (url: String)
    ensures
        url@ == drive_probe_url(file_id@),
{
    let mut url: Vec<char> = Vec::new();
    push_str(&mut url, "https://drive.google.com/uc?export=download&id=");
    push_str(&mut url, file_id);
    string_of(url.as_slice())
}

/// The address from which a Google Drive file is fetched once the probe has
/// been answered with `body`.
pub fn google_drive_final_url(file_id: &str, body: &str) -> (url: String)
    ensures
        url@ == drive_final_url(file_id@, body@),
{
    match extract_download_url_from_html(body) {
        Some(url) => url,
        None => {
            let token = chars_of(extract_confirm_token_from_html(body).as_str());
            if token.len() == 0 {
                google_drive_probe_url(file_id)
            } else {
                let mut url: Vec<char> = Vec::new();
                push_str(&mut url, "https://drive.google.com/uc?export=download&confirm=");
                push_chars(&mut url, token.as_slice());
                push_str(&mut url, "&id=");
                push_str(&mut url, file_id);
                string_of(url.as_slice())
            }
        },
    }
}

/// What has to be done before the file behind a link can be fetched.
#[derive(Debug)]
pub enum Resolution {
    /// Nothing: fetch `url`.
    Fetch { url: String },
    /// Run the Google Drive download for `file_id`.
    GoogleDrive { file_id: String },
    /// Follow the redirects of `url` and fetch the address they end at.
    FollowRedirects { url: String },
    /// Get the page at `url`; the address to fetch is read out of it.
    ScrapePage { url: String },
}

/// Why no file can be fetched through a link.
#[derive(Debug)]
pub enum ResolutionError {
    /// The provider is known, but its links cannot be resolved.
    ClassificationAmbiguous { provider: String, url: String },
    /// The text is no link.
    NoDownloadableLink { text: String },
    /// No address to fetch could be derived for this link of `provider`.
    ResolutionFailed { provider: String, url: String },
}

/// The way from a descriptor to its file, or the reason why there is none.
pub open spec fn resolves(link: Descriptor, r: Result<Resolution, ResolutionError>) -> bool {
    match link {
        Descriptor::Direct { url } => r matches Ok(Resolution::Fetch { url: target })
            && target@ == url,
        Descriptor::GoogleDrive { id } => if "https://"@.is_prefix_of(id) {
            match google_drive_id_anywhere(id) {
                Some(found) => r matches Ok(Resolution::GoogleDrive { file_id })
                    && file_id@ == found,
                None => r matches Err(ResolutionError::ResolutionFailed { provider, url })
                    && provider@ == "GoogleDrive"@ && url@ == id,
            }
        } else {
            r matches Ok(Resolution::GoogleDrive { file_id }) && file_id@ == id
        },
        Descriptor::Dropbox { id } => r matches Ok(Resolution::Fetch { url: target })
            && target@ == dropbox_fetch_url(id),
        Descriptor::OneDrive { url } => r matches Ok(Resolution::FollowRedirects { url: target })
            && target@ == url,
        Descriptor::MediaFire { url } => r matches Ok(Resolution::ScrapePage { url: target })
            && target@ == url,
        Descriptor::Unsupported { provider, raw_url } => r matches Err(
            ResolutionError::ClassificationAmbiguous { provider: p, url },
        ) && p@ == provider && url@ == raw_url,
        Descriptor::Unclassified { raw_text } => r matches Err(
            ResolutionError::NoDownloadableLink { text },
        ) && text@ == raw_text,
    }
}

/// Decides, by the kind of the link, how its file is to be fetched.
pub fn download_link_by_type(link: &LinkType) -> (r: Result<Resolution, ResolutionError>)
    ensures
        resolves(link@, r),
{
    match link {
        LinkType::Direct(direct) => Ok(Resolution::Fetch { url: direct.url.clone() }),
        LinkType::GoogleDrive(drive) => {
            let id = chars_of(drive.share_id.as_str());
            if has_prefix(id.as_slice(), "https://") {
                match extract_google_drive_id_from_url(drive.share_id.as_str()) {
                    Some(file_id) => Ok(Resolution::GoogleDrive { file_id }),
                    None => Err(
                        ResolutionError::ResolutionFailed {
                            provider: string_of(chars_of("GoogleDrive").as_slice()),
                            url: drive.share_id.clone(),
                        },
                    ),
                }
            } else {
                Ok(Resolution::GoogleDrive { file_id: drive.share_id.clone() })
            }
        },
        LinkType::Dropbox(dropbox) => Ok(Resolution::Fetch { url: dropbox.download_url() }),
        LinkType::OneDrive(onedrive) => Ok(
            Resolution::FollowRedirects { url: onedrive.url.clone() },
        ),
        LinkType::MediaFire(mediafire) => Ok(Resolution::ScrapePage { url: mediafire.url.clone() }),
        LinkType::Unsupported { provider, raw_url } => Err(
            ResolutionError::ClassificationAmbiguous {
                provider: provider.clone(),
                url: raw_url.clone(),
            },
        ),
        LinkType::Unclassified { raw_text } => Err(
            ResolutionError::NoDownloadableLink { text: raw_text.clone() },
        ),
    }
}

/// The address to fetch for the MediaFire share page `page_url`, read out of
/// the page's text. A page without such an address is a failure.
pub fn mediafire_target(page_url: &str, html_content: &str) -> (r: Result<String, ResolutionError>)
    ensures
        match mediafire_download_url(html_content@) {
            Some(target) => r matches Ok(url) && url@ == target,
            None => r matches Err(ResolutionError::ResolutionFailed { provider, url })
                && provider@ == "MediaFire"@ && url@ == page_url@,
        },
{
    match extract_mediafire_download_url(html_content) {
        Some(url) => Ok(url),
        None => Err(
            ResolutionError::ResolutionFailed {
                provider: string_of(chars_of("MediaFire").as_slice()),
                url: string_of(chars_of(page_url).as_slice()),
            },
        ),
    }
}

} // verus!
