//! The selection policy: which of an entry's links is downloaded.
//!
//! An entry with one downloadable link has it taken. With several, nothing is
//! guessed: an operator picks one, or the entry is put off.

use vstd::prelude::*;
use crate::entry::{
    analyze_links, descriptor_of, filename_of, generate_filename, is_link_text,
    lemma_filter_step, links_of, non_links_of, text_of, BmsEntry,
};
use crate::link::{classify, create_link_from_url, is_valid_url, Descriptor, LinkType};
use crate::text::{
    chars_of, index_of, number_up_to, parse_up_to, string_of, trim, trimmed, view_of,
};

verus! {

/// Whether a link can be downloaded.
pub open spec fn is_candidate() -> spec_fn(Descriptor) -> bool {
    |link: Descriptor| link.downloadable()
}

/// The downloadable links among the given texts, in the order of the texts.
/// Equal links stay apart.
pub open spec fn candidates_of(addr: Seq<Seq<char>>) -> Seq<Descriptor> {
    links_of(addr).filter(is_candidate())
}

/// What is decided for an entry.
#[derive(Debug)]
pub enum Selection {
    /// The entry has no link. `non_links` is the text it has instead.
    NothingToFetch { non_links: Vec<String> },
    /// The entry has links, none of which can be downloaded.
    NoSupportedLinks { links: Vec<LinkType> },
    /// The entry's one downloadable link.
    Selected { link: LinkType },
    /// Several links can be downloaded: the operator is to pick one of them.
    Prompt { candidates: Vec<LinkType> },
    /// Several links can be downloaded and no operator is at hand: they are
    /// to be listed, and the entry is skipped.
    Deferred { candidates: Vec<LinkType> },
}

/// The decision for an entry with the addresses `addr`.
pub open spec fn selection_made(addr: Seq<Seq<char>>, interactive: bool, s: Selection) -> bool {
    if links_of(addr).len() == 0 {
        s matches Selection::NothingToFetch { non_links } && non_links@.map_values(text_of())
            == non_links_of(addr)
    } else if candidates_of(addr).len() == 0 {
        s matches Selection::NoSupportedLinks { links } && links@.map_values(descriptor_of())
            == links_of(addr)
    } else if candidates_of(addr).len() == 1 {
        s matches Selection::Selected { link } && link@ == candidates_of(addr)[0]
    } else if interactive {
        s matches Selection::Prompt { candidates } && candidates@.map_values(descriptor_of())
            == candidates_of(addr)
    } else {
        s matches Selection::Deferred { candidates } && candidates@.map_values(descriptor_of())
            == candidates_of(addr)
    }
}

/// An entry with exactly one downloadable link has that link selected,
/// whether or not an operator is at hand.
pub proof fn lemma_single_candidate_is_selected(
    addr: Seq<Seq<char>>,
    interactive: bool,
    s: Selection,
)
    requires
        selection_made(addr, interactive, s),
        candidates_of(addr).len() == 1,
    ensures
        s matches Selection::Selected { link } && link@ == candidates_of(addr)[0],
{
    links_of(addr).lemma_filter_len(is_candidate());
}

/// An entry with two or more downloadable links and no operator at hand has
/// none of them selected: all of them are handed back, in order, to be
/// listed.
pub proof fn lemma_several_candidates_are_deferred(addr: Seq<Seq<char>>, s: Selection)
    requires
        selection_made(addr, false, s),
        candidates_of(addr).len() >= 2,
    ensures
        s matches Selection::Deferred { candidates } && candidates@.map_values(descriptor_of())
            == candidates_of(addr),
{
    links_of(addr).lemma_filter_len(is_candidate());
}

/// The downloadable links of an entry, in the order of its addresses.
pub fn downloadable_links(entry: &BmsEntry) -> (candidates: Vec<LinkType>)
    ensures
        candidates@.map_values(descriptor_of()) == candidates_of(entry.addresses()),
{
    let mut candidates: Vec<LinkType> = Vec::new();
    let ghost addr = entry.addresses();
    let mut i: usize = 0;
    while i < entry.addr.len()
        invariant
            i <= entry.addr.len(),
            addr == entry.addresses(),
            addr.len() == entry.addr.len(),
            candidates@.map_values(descriptor_of()) == candidates_of(addr.take(i as int)),
        decreases entry.addr.len() - i,
    {
        let text = &entry.addr[i];
        let ghost links = links_of(addr.take(i as int));
        proof {
            lemma_filter_step(addr, i as int, is_link_text());
        }
        if is_valid_url(text.as_str()) {
            let link = create_link_from_url(text.as_str());
            proof {
                assert(links_of(addr.take(i + 1)) =~= links.push(classify(addr[i as int])));
                assert(links.push(link@).drop_last() =~= links);
                reveal(Seq::filter);
            }
            if link.is_downloadable() {
                candidates.push(link);
            }
        }
        i += 1;
    }
    assert(addr.take(i as int) =~= addr);
    candidates
}

/// Decides what is downloaded for an entry.
pub fn select_download_link_for_trait(entry: &BmsEntry, interactive: bool) -> (s: Selection)
    ensures
        selection_made(entry.addresses(), interactive, s),
{
    let (links, non_links) = analyze_links(entry);
    if links.len() == 0 {
        return Selection::NothingToFetch { non_links };
    }
    let mut candidates = downloadable_links(entry);
    if candidates.len() == 0 {
        Selection::NoSupportedLinks { links }
    } else if candidates.len() == 1 {
        let link = candidates.remove(0);
        Selection::Selected { link }
    } else if interactive {
        Selection::Prompt { candidates }
    } else {
        Selection::Deferred { candidates }
    }
}

/// What is to be done for an entry: the name of its file and the decision on
/// its links.
#[derive(Debug)]
pub struct EntryPlan {
    pub filename: String,
    pub selection: Selection,
}

/// Plans the download of an entry: names its file and decides on its links.
/// Fetching the file and judging it are left to the caller.
pub fn download_entry(entry: &BmsEntry, interactive: bool) -> (plan: EntryPlan)
    ensures
        plan.filename@ == filename_of(entry.no@, entry.title@),
        selection_made(entry.addresses(), interactive, plan.selection),
{
    EntryPlan {
        filename: generate_filename(entry),
        selection: select_download_link_for_trait(entry, interactive),
    }
}

/// One line of the list that is put before the operator.
#[derive(Debug)]
pub struct CandidateLine {
    /// The number by which the operator picks the candidate, counted from
    /// one.
    pub number: usize,
    /// The kind of the link.
    pub kind: String,
    /// The URL from which the file would be fetched.
    pub url: Option<String>,
}

/// The list of the candidates as it is put before the operator: one line for
/// each, in order, numbered from one.
pub fn list_candidates(candidates: &Vec<LinkType>) -> (lines: Vec<CandidateLine>)
    ensures
        lines@.len() == candidates@.len(),
        forall|i: int|
            0 <= i < lines@.len() ==> {
                &&& (#[trigger] lines@[i]).number == i + 1
                &&& lines@[i].kind@ == candidates@[i]@.kind()
                &&& view_of(lines@[i].url) == candidates@[i]@.fetch_url()
            },
{
    let mut lines: Vec<CandidateLine> = Vec::new();
    let mut i: usize = 0;
    while i < candidates.len()
        invariant
            i <= candidates.len(),
            lines@.len() == i,
            forall|k: int|
                0 <= k < i ==> {
                    &&& (#[trigger] lines@[k]).number == k + 1
                    &&& lines@[k].kind@ == candidates@[k]@.kind()
                    &&& view_of(lines@[k].url) == candidates@[k]@.fetch_url()
                },
        decreases candidates.len() - i,
    {
        let link = &candidates[i];
        let kind = chars_of(link.get_type_name());
        lines.push(
            CandidateLine {
                number: i + 1,
                kind: string_of(kind.as_slice()),
                url: link.get_direct_url(),
            },
        );
        i += 1;
    }
    lines
}

/// The index of the candidate that an operator's answer picks among `count`
/// candidates. The answer is a number, counted from one, with white space
/// allowed round it. An empty answer, one that is no number, and a number
/// that names no candidate pick nothing.
pub open spec fn choice_of(input: Seq<char>, count: int) -> Option<int> {
    match number_up_to(trimmed(input), count) {
        Some(number) => if number >= 1 {
            Some(number - 1)
        } else {
            None
        },
        None => None,
    }
}

/// The index that an answer picks among `count` candidates.
pub fn parse_choice(input: &str, count: usize) -> (r: Option<usize>)
    ensures
        index_of(r) == choice_of(input@, count as int),
{
    let text = chars_of(input);
    match parse_up_to(trim(text.as_slice()), count) {
        Some(number) => if number >= 1 {
            Some(number - 1)
        } else {
            None
        },
        None => None,
    }
}

/// The candidate that an operator's answer picks, if it picks one.
pub fn choose_candidate(candidates: Vec<LinkType>, input: &str) -> (r: Option<LinkType>)
    ensures
        match choice_of(input@, candidates@.len() as int) {
            Some(k) => r == Some(candidates@[k]),
            None => r is None,
        },
{
    let mut candidates = candidates;
    match parse_choice(input, candidates.len()) {
        Some(k) => Some(candidates.remove(k)),
        None => None,
    }
}

} // verus!
