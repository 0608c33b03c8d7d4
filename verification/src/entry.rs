//! Catalog entries: one work of an event, with the addresses it was
//! published under.

use vstd::prelude::*;
use vstd::slice::slice_subrange;
use crate::link::{classify, create_link_from_url, is_valid_url, valid_url, Descriptor, LinkType};
use crate::text::{
    chars_of, push_str, same, split, split_on, string_of, trim, trimmed,
};

verus! {

/// One work of an event. `addr` holds what its address cell contained, in
/// order: web addresses and other text.
#[derive(Debug, Clone)]
pub struct BmsEntry {
    pub no: String,
    pub name: String,
    pub team: Option<String>,
    pub title: String,
    pub size: String,
    pub addr: Vec<String>,
}

/// An entry with its texts held as sequences of characters.
pub struct EntryView {
    pub no: Seq<char>,
    pub name: Seq<char>,
    pub team: Option<Seq<char>>,
    pub title: Seq<char>,
    pub size: Seq<char>,
    pub addr: Seq<Seq<char>>,
}

impl View for BmsEntry {
    type V = EntryView;

    open spec fn view(&self) -> EntryView {
        EntryView {
            no: self.no@,
            name: self.name@,
            team: match self.team {
                Some(team) => Some(team@),
                None => None,
            },
            title: self.title@,
            size: self.size@,
            addr: self.addresses(),
        }
    }
}

/// The text of a string.
pub open spec fn text_of() -> spec_fn(String) -> Seq<char> {
    |s: String| s@
}

/// The descriptor of a link.
pub open spec fn descriptor_of() -> spec_fn(LinkType) -> Descriptor {
    |link: LinkType| link@
}

/// Whether a text is a valid web address.
pub open spec fn is_link_text() -> spec_fn(Seq<char>) -> bool {
    |a: Seq<char>| valid_url(a)
}

/// Whether a text is no valid web address.
pub open spec fn is_other_text() -> spec_fn(Seq<char>) -> bool {
    |a: Seq<char>| !valid_url(a)
}

/// The classification of a text.
pub open spec fn classified() -> spec_fn(Seq<char>) -> Descriptor {
    |a: Seq<char>| classify(a)
}

/// The links among the given texts: each valid web address, classified, in
/// the order of the texts.
pub open spec fn links_of(addr: Seq<Seq<char>>) -> Seq<Descriptor> {
    addr.filter(is_link_text()).map_values(classified())
}

/// The given texts that are no links, in order.
pub open spec fn non_links_of(addr: Seq<Seq<char>>) -> Seq<Seq<char>> {
    addr.filter(is_other_text())
}

impl BmsEntry {
    /// The entry's addresses as texts.
    pub open spec fn addresses(&self) -> Seq<Seq<char>> {
        self.addr@.map_values(text_of())
    }
}

/// Filtering one element more.
pub proof fn lemma_filter_step<A>(s: Seq<A>, i: int, pred: spec_fn(A) -> bool)
    requires
        0 <= i < s.len(),
    ensures
        s.take(i + 1).filter(pred) == if pred(s[i]) {
            s.take(i).filter(pred).push(s[i])
        } else {
            s.take(i).filter(pred)
        },
{
    reveal(Seq::filter);
    assert(s.take(i + 1).drop_last() =~= s.take(i));
}

/// Every text is a link or other text, and never both.
pub proof fn lemma_nothing_is_dropped(addr: Seq<Seq<char>>)
    ensures
        links_of(addr).len() + non_links_of(addr).len() == addr.len(),
    decreases addr.len(),
{
    reveal(Seq::filter);
    if addr.len() > 0 {
        lemma_nothing_is_dropped(addr.drop_last());
    }
}

/// Parts the addresses of an entry into links and other text. Each keeps the
/// order of the addresses; nothing is dropped and nothing is merged.
pub fn analyze_links(entry: &BmsEntry) -> (r: (Vec<LinkType>, Vec<String>))
    ensures
        r.0@.map_values(descriptor_of()) == links_of(entry.addresses()),
        r.1@.map_values(text_of()) == non_links_of(entry.addresses()),
        r.0@.len() + r.1@.len() == entry.addr@.len(),
{
    proof {
        lemma_nothing_is_dropped(entry.addresses());
    }
    let mut links: Vec<LinkType> = Vec::new();
    let mut non_links: Vec<String> = Vec::new();
    let ghost addr = entry.addresses();
    let mut i: usize = 0;
    while i < entry.addr.len()
        invariant
            i <= entry.addr.len(),
            addr == entry.addresses(),
            addr.len() == entry.addr.len(),
            links@.map_values(descriptor_of()) == links_of(addr.take(i as int)),
            non_links@.map_values(text_of()) == non_links_of(addr.take(i as int)),
        decreases entry.addr.len() - i,
    {
        let text = &entry.addr[i];
        proof {
            lemma_filter_step(addr, i as int, is_link_text());
            lemma_filter_step(addr, i as int, is_other_text());
        }
        if is_valid_url(text.as_str()) {
            let link = create_link_from_url(text.as_str());
            links.push(link);
            assert(addr.take(i + 1).filter(is_link_text()).map_values(classified())
                =~= addr.take(i as int).filter(is_link_text()).map_values(classified()).push(
                classify(addr[i as int]),
            ));
        } else {
            non_links.push(text.clone());
        }
        i += 1;
    }
    assert(addr.take(i as int) =~= addr);
    (links, non_links)
}

/// The characters that a file name must not hold.
pub open spec fn is_forbidden(c: char) -> bool {
    c == '/' || c == '\\' || c == ':' || c == '*' || c == '?' || c == '"' || c == '<' || c == '>'
        || c == '|'
}

/// `c`, or an underscore in the place of a forbidden character.
pub open spec fn safe_char(c: char) -> char {
    if is_forbidden(c) {
        '_'
    } else {
        c
    }
}

/// `s` with each forbidden character replaced by an underscore.
pub open spec fn sanitized(s: Seq<char>) -> Seq<char> {
    Seq::new(s.len(), |i: int| safe_char(s[i]))
}

/// The longest a file name gets, in characters.
pub const MAX_FILENAME_LEN: usize = 100;

/// `s` cut to 100 characters: a longer text keeps its first 97 and ends in
/// three dots.
pub open spec fn truncated(s: Seq<char>) -> Seq<char> {
    if s.len() > 100 {
        s.take(97) + "..."@
    } else {
        s
    }
}

/// The file name for a work: its number and title joined by ` - `, made safe
/// and cut to length.
pub open spec fn filename_of(no: Seq<char>, title: Seq<char>) -> Seq<char> {
    truncated(sanitized(no + " - "@ + title))
}

/// A file name holds no forbidden character and at most 100 characters,
/// whatever the number and the title are. A name that would be longer has
/// exactly 100: its first 97 and three dots.
pub proof fn lemma_filename_is_safe(no: Seq<char>, title: Seq<char>)
    ensures
        filename_of(no, title).len() <= 100,
        forall|i: int|
            0 <= i < filename_of(no, title).len() ==> !is_forbidden(
                #[trigger] filename_of(no, title)[i],
            ),
        (no + " - "@ + title).len() > 100 ==> filename_of(no, title).len() == 100
            && filename_of(no, title).take(97) == sanitized(no + " - "@ + title).take(97)
            && filename_of(no, title).skip(97) == "..."@,
        (no + " - "@ + title).len() <= 100 ==> filename_of(no, title) == sanitized(
            no + " - "@ + title,
        ),
{
    reveal_strlit("...");
}

/// The name of the file that an entry is saved under.
pub fn generate_filename(entry: &BmsEntry) -> (name: String)
    ensures
        name@ == filename_of(entry.no@, entry.title@),
        name@.len() <= 100,
        forall|i: int| 0 <= i < name@.len() ==> !is_forbidden(name@[i]),
{
    let mut raw: Vec<char> = Vec::new();
    push_str(&mut raw, entry.no.as_str());
    push_str(&mut raw, " - ");
    push_str(&mut raw, entry.title.as_str());
    let mut clean: Vec<char> = Vec::new();
    let mut i: usize = 0;
    while i < raw.len()
        invariant
            i <= raw.len(),
            clean@.len() == i,
            forall|j: int| 0 <= j < i ==> clean@[j] == safe_char(raw@[j]),
        decreases raw.len() - i,
    {
        let c = raw[i];
        if forbidden(c) {
            clean.push('_');
        } else {
            clean.push(c);
        }
        i += 1;
    }
    proof {
        lemma_filename_is_safe(entry.no@, entry.title@);
    }
    if clean.len() > MAX_FILENAME_LEN {
        let mut short: Vec<char> = Vec::new();
        let head = slice_subrange(clean.as_slice(), 0, MAX_FILENAME_LEN - 3);
        crate::text::push_chars(&mut short, head);
        push_str(&mut short, "...");
        string_of(short.as_slice())
    } else {
        string_of(clean.as_slice())
    }
}

/// Whether a file name must not hold `c`.
pub fn forbidden(c: char) -> (b: bool)
    ensures
        b == is_forbidden(c),
{
    c == '/' || c == '\\' || c == ':' || c == '*' || c == '?' || c == '"' || c == '<' || c == '>'
        || c == '|'
}

/// The work numbers that a filter names: its pieces between commas, each
/// without the white space round it.
pub open spec fn wanted_numbers(filter: Seq<char>) -> Seq<Seq<char>> {
    split_on(filter, ","@).map_values(|piece: Seq<char>| trimmed(piece))
}

/// Whether an entry passes a filter: its number is one that the filter names.
pub open spec fn is_wanted(filter: Seq<char>) -> spec_fn(BmsEntry) -> bool {
    |entry: BmsEntry| wanted_numbers(filter).contains(entry.no@)
}

/// The entries that a filter lets through, in order. No filter lets all
/// through.
pub open spec fn filtered(entries: Seq<BmsEntry>, filter: Option<Seq<char>>) -> Seq<BmsEntry> {
    match filter {
        Some(f) => entries.filter(is_wanted(f)),
        None => entries,
    }
}

/// The entries behind a sequence of references.
pub open spec fn entries_behind(refs: Seq<&BmsEntry>) -> Seq<BmsEntry> {
    Seq::new(refs.len(), |i: int| *refs[i])
}

/// The entries whose number is named in `entries_filter`, a list of numbers
/// separated by commas; all entries where there is no filter.
pub fn filter_entries<'a>(entries: &'a Vec<BmsEntry>, entries_filter: Option<&str>) -> (r: Vec<
    &'a BmsEntry,
>)
    ensures
        entries_behind(r@) == filtered(
            entries@,
            match entries_filter {
                Some(f) => Some(f@),
                None => None,
            },
        ),
{
    let mut kept: Vec<&'a BmsEntry> = Vec::new();
    match entries_filter {
        Some(filter) => {
            let filter_chars = chars_of(filter);
            let pieces = split(filter_chars.as_slice(), ",");
            let ghost wanted = wanted_numbers(filter@);
            let mut i: usize = 0;
            while i < entries.len()
                invariant
                    i <= entries.len(),
                    wanted == wanted_numbers(filter@),
                    wanted.len() == pieces@.len(),
                    forall|k: int|
                        0 <= k < pieces@.len() ==> trimmed(pieces@[k]@) == #[trigger] wanted[k],
                    entries_behind(kept@) == entries@.take(i as int).filter(
                        is_wanted(filter@),
                    ),
                decreases entries.len() - i,
            {
                let entry = &entries[i];
                let no = chars_of(entry.no.as_str());
                let mut found = false;
                let mut k: usize = 0;
                while k < pieces.len() && !found
                    invariant
                        k <= pieces.len(),
                        no@ == entry.no@,
                        wanted.len() == pieces@.len(),
                        forall|j: int|
                            0 <= j < pieces@.len() ==> trimmed(pieces@[j]@) == #[trigger] wanted[j],
                        !found ==> forall|j: int| 0 <= j < k ==> wanted[j] != entry.no@,
                        found ==> wanted.contains(entry.no@),
                    decreases pieces.len() - k + (if found { 0int } else { 1int }),
                {
                    if same(trim(pieces[k]), no.as_slice()) {
                        assert(wanted[k as int] == entry.no@);
                        found = true;
                    } else {
                        k += 1;
                    }
                }
                proof {
                    lemma_filter_step(entries@, i as int, is_wanted(filter@));
                }
                if found {
                    kept.push(entry);
                }
                i += 1;
            }
            assert(entries@.take(i as int) =~= entries@);
        },
        None => {
            let mut i: usize = 0;
            while i < entries.len()
                invariant
                    i <= entries.len(),
                    entries_behind(kept@) == entries@.take(i as int),
                decreases entries.len() - i,
            {
                let ghost before = entries_behind(kept@);
                kept.push(&entries[i]);
                assert(entries_behind(kept@) =~= before.push(entries@[i as int]));
                i += 1;
            }
        },
    }
    kept
}

} // verus!
