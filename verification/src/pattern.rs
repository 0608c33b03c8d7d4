//! Regular expressions, and cutting a text at the places they match.
//!
//! Matching is done by the `regex` crate. What it returns is taken on trust
//! and given a name; what is made of the matches is proved.

use vstd::prelude::*;
use vstd::string::StringSliceAdditionalSpecFns;
use vstd::utf8::{
    decode_utf8, encode_utf8_decode_utf8, encode_utf8_valid_utf8, is_char_boundary,
    is_char_boundary_iff_not_is_continuation_byte, is_char_boundary_start_end_of_seq,
    valid_utf8, valid_utf8_split,
};
use crate::text::{chars_of, string_of, trim, trimmed};

verus! {

/// `regex::Error`, which the matcher hands out for a pattern it refuses.
/// Nothing is known of what it holds.
#[verifier::external_type_specification]
#[verifier::external_body]
pub struct ExRegexError(regex::Error);

/// A pattern that the matcher refuses.
#[derive(Debug, Clone, Copy, PartialEq, Eq, Structural)]
pub struct PatternError;

/// The places, as byte offsets of start and end, at which `pattern` matches
/// in `text`, from left to right and without overlap. `None` where the
/// pattern is refused.
pub uninterp spec fn regex_spans(pattern: Seq<char>, text: Seq<char>) -> Option<Seq<(int, int)>>;

/// The first place at which `pattern` matches in `text`. `None` where the
/// pattern is refused, `Some(None)` where it matches nowhere.
pub uninterp spec fn regex_first_span(pattern: Seq<char>, text: Seq<char>) -> Option<
    Option<(int, int)>,
>;

/// `text` with every match of `pattern` replaced by what `with` expands to:
/// a `$` in `with` refers to a group of the match, and `$$` stands for one
/// `$`. `None` where the pattern is refused.
pub uninterp spec fn regex_replaced(pattern: Seq<char>, text: Seq<char>, with: Seq<char>) -> Option<
    Seq<char>,
>;

/// A span of machine offsets as one of mathematical ones.
pub open spec fn span_of(span: (usize, usize)) -> (int, int) {
    (span.0 as int, span.1 as int)
}

/// Spans of machine offsets as spans of mathematical ones.
pub open spec fn spans_of(spans: Seq<(usize, usize)>) -> Seq<(int, int)> {
    Seq::new(spans.len(), |i: int| span_of(spans[i]))
}

/// `regex::Regex::new` followed by `Regex::find_iter`: compiles `pattern` and
/// hands out the start and end of each match in `text`. The contract claims
/// that the outcome is the one named `regex_spans`, and of each match what
/// `Match::start` and `Match::end` promise: the start is not after the end,
/// and both lie between characters of the text. Of the order of the matches
/// it claims nothing.
#[verifier::external_body]
fn find_spans(pattern: &str, text: &str) -> (r: Result<Vec<(usize, usize)>, regex::Error>)
    ensures
        match r {
            Ok(spans) => regex_spans(pattern@, text@) == Some(spans_of(spans@)),
            Err(_) => regex_spans(pattern@, text@) is None,
        },
        r matches Ok(spans) ==> all_cut(text.spec_bytes(), spans_of(spans@)),
{
    Ok(regex::Regex::new(pattern)?.find_iter(text).map(|m| (m.start(), m.end())).collect())
}

/// `regex::Regex::new` followed by `Regex::find`: compiles `pattern` and
/// hands out the start and end of its first match in `text`. The contract
/// claims that the outcome is the one named `regex_first_span`, and of the
/// match what `Match::start` and `Match::end` promise: the start is not after
/// the end, and both lie between characters of the text.
#[verifier::external_body]
fn find_first_span(pattern: &str, text: &str) -> (r: Result<Option<(usize, usize)>, regex::Error>)
    ensures
        match r {
            Ok(Some(span)) => regex_first_span(pattern@, text@) == Some(Some(span_of(span))),
            Ok(None) => regex_first_span(pattern@, text@) == Some(None::<(int, int)>),
            Err(_) => regex_first_span(pattern@, text@) is None,
        },
        r matches Ok(Some(span)) ==> cuts(text.spec_bytes(), span.0 as int, span.1 as int),
{
    Ok(regex::Regex::new(pattern)?.find(text).map(|m| (m.start(), m.end())))
}

/// `regex::Regex::new` followed by `Regex::replace_all`: compiles `pattern`
/// and replaces each of its matches in `text` by what `with` expands to. The
/// contract claims only that the outcome is the one named `regex_replaced`.
#[verifier::external_body]
fn replace_matches(pattern: &str, text: &str, with: &str) -> (r: Result<String, regex::Error>)
    ensures
        match r {
            Ok(replaced) => regex_replaced(pattern@, text@, with@) == Some(replaced@),
            Err(_) => regex_replaced(pattern@, text@, with@) is None,
        },
{
    Ok(regex::Regex::new(pattern)?.replace_all(text, with).into_owned())
}

/// The places at which `pattern` matches in `text`. Each lies between
/// characters of the text.
pub fn match_spans(pattern: &str, text: &str) -> (r: Result<Vec<(usize, usize)>, PatternError>)
    ensures
        match r {
            Ok(spans) => regex_spans(pattern@, text@) == Some(spans_of(spans@)),
            Err(_) => regex_spans(pattern@, text@) is None,
        },
        r matches Ok(spans) ==> all_cut(text.spec_bytes(), spans_of(spans@)),
{
    match find_spans(pattern, text) {
        Ok(spans) => Ok(spans),
        Err(_) => Err(PatternError),
    }
}

/// The first place at which `pattern` matches in `text`. It lies between
/// characters of the text.
pub fn first_span(pattern: &str, text: &str) -> (r: Result<Option<(usize, usize)>, PatternError>)
    ensures
        match r {
            Ok(Some(span)) => regex_first_span(pattern@, text@) == Some(Some(span_of(span))),
            Ok(None) => regex_first_span(pattern@, text@) == Some(None::<(int, int)>),
            Err(_) => regex_first_span(pattern@, text@) is None,
        },
        r matches Ok(Some(span)) ==> cuts(text.spec_bytes(), span.0 as int, span.1 as int),
{
    match find_first_span(pattern, text) {
        Ok(span) => Ok(span),
        Err(_) => Err(PatternError),
    }
}

/// `text` with every match of `pattern` replaced by what `with` expands to.
/// In `with` a `$` followed by a number or a name stands for the group of the
/// match that it names, and `$$` for one `$`; a `with` without `$` is put in
/// as it stands.
pub fn replace_all(pattern: &str, text: &str, with: &str) -> (r: Result<String, PatternError>)
    ensures
        match r {
            Ok(replaced) => regex_replaced(pattern@, text@, with@) == Some(replaced@),
            Err(_) => regex_replaced(pattern@, text@, with@) is None,
        },
{
    match replace_matches(pattern, text, with) {
        Ok(replaced) => Ok(replaced),
        Err(_) => Err(PatternError),
    }
}

/// The characters that the bytes from `from` to `to` encode.
pub open spec fn slice_text(bytes: Seq<u8>, from: int, to: int) -> Seq<char> {
    decode_utf8(bytes.subrange(from, to))
}

/// `from` and `to` cut `bytes` between characters, in this order.
pub open spec fn cuts(bytes: Seq<u8>, from: int, to: int) -> bool {
    &&& 0 <= from <= to <= bytes.len()
    &&& is_char_boundary(bytes, from)
    &&& is_char_boundary(bytes, to)
}

/// Each of `spans` cuts `bytes` between characters, its start not after its
/// end.
pub open spec fn all_cut(bytes: Seq<u8>, spans: Seq<(int, int)>) -> bool {
    forall|i: int| 0 <= i < spans.len() ==> cuts(bytes, (#[trigger] spans[i]).0, spans[i].1)
}

/// A boundary of a text is a boundary of the rest of the text after an
/// earlier boundary.
proof fn lemma_boundary_in_rest(bytes: Seq<u8>, from: int, to: int)
    requires
        valid_utf8(bytes),
        cuts(bytes, from, to),
    ensures
        valid_utf8(bytes.subrange(from, bytes.len() as int)),
        is_char_boundary(bytes.subrange(from, bytes.len() as int), to - from),
{
    let rest = bytes.subrange(from, bytes.len() as int);
    valid_utf8_split(bytes, from);
    is_char_boundary_start_end_of_seq(rest);
    if to < bytes.len() {
        is_char_boundary_iff_not_is_continuation_byte(bytes, to);
        is_char_boundary_iff_not_is_continuation_byte(rest, to - from);
    }
}

/// The text between two byte offsets that cut `text` between characters.
pub fn substring<'a>(text: &'a str, from: usize, to: usize) -> (piece: &'a str)
    requires
        cuts(text.spec_bytes(), from as int, to as int),
    ensures
        piece@ == slice_text(text.spec_bytes(), from as int, to as int),
{
    let ghost bytes = text.spec_bytes();
    proof {
        encode_utf8_valid_utf8(text@);
        lemma_boundary_in_rest(bytes, from as int, to as int);
    }
    let (_, rest) = text.split_at(from);
    let (piece, _) = rest.split_at(to - from);
    proof {
        assert(piece.spec_bytes() =~= bytes.subrange(from as int, to as int));
        encode_utf8_decode_utf8(piece@);
    }
    piece
}

/// The length of `text` in bytes.
pub fn byte_len(text: &str) -> (n: usize)
    ensures
        n == text.spec_bytes().len(),
{
    text.as_bytes().len()
}

/// Whether two byte offsets cut `text` between characters, in this order.
pub fn is_cut(text: &str, from: usize, to: usize) -> (b: bool)
    ensures
        b == cuts(text.spec_bytes(), from as int, to as int),
{
    proof {
        encode_utf8_valid_utf8(text@);
    }
    from <= to && to <= byte_len(text) && text.is_char_boundary(from) && text.is_char_boundary(to)
}

/// A text as a piece: nothing where the text is empty once the white space
/// round it is gone, else the text without that white space.
pub open spec fn trimmed_piece(text: Seq<char>) -> Seq<Seq<char>> {
    if trimmed(text).len() > 0 {
        seq![trimmed(text)]
    } else {
        seq![]
    }
}

/// The pieces that `spans` cut a text into, from the byte offset `from` on:
/// before each span what lies between it and the one before, if that is more
/// than white space, then what the span covers; and after the last span what
/// is left. A span that does not cut the text between characters at or after
/// the end of the one before is passed over.
pub open spec fn pieces_from(bytes: Seq<u8>, spans: Seq<(int, int)>, from: int) -> Seq<Seq<char>>
    decreases spans.len(),
{
    if spans.len() == 0 {
        trimmed_piece(slice_text(bytes, from, bytes.len() as int))
    } else if from <= spans[0].0 && cuts(bytes, spans[0].0, spans[0].1) {
        trimmed_piece(slice_text(bytes, from, spans[0].0)) + seq![
            slice_text(bytes, spans[0].0, spans[0].1),
        ] + pieces_from(bytes, spans.skip(1), spans[0].1)
    } else {
        pieces_from(bytes, spans.skip(1), from)
    }
}

/// The texts of a vector of strings.
pub open spec fn texts_of(strings: Seq<String>) -> Seq<Seq<char>> {
    Seq::new(strings.len(), |i: int| strings[i]@)
}

/// Appends `text` without the white space round it to `out`, unless nothing
/// is left of it.
fn push_trimmed(out: &mut Vec<String>, text: &str)
    ensures
        texts_of(final(out)@) == texts_of(old(out)@) + trimmed_piece(text@),
{
    let chars = chars_of(text);
    let kept = trim(chars.as_slice());
    if kept.len() > 0 {
        out.push(string_of(kept));
    }
}

/// Cuts `text` into the pieces between and under the given spans.
pub fn split_by_spans(text: &str, spans: &Vec<(usize, usize)>) -> (pieces: Vec<String>)
    ensures
        texts_of(pieces@) == pieces_from(text.spec_bytes(), spans_of(spans@), 0),
{
    let ghost bytes = text.spec_bytes();
    let ghost all = spans_of(spans@);
    let mut pieces: Vec<String> = Vec::new();
    let mut from: usize = 0;
    let mut i: usize = 0;
    proof {
        encode_utf8_valid_utf8(text@);
        is_char_boundary_start_end_of_seq(bytes);
        assert(all.skip(0) =~= all);
    }
    while i < spans.len()
        invariant
            i <= spans.len(),
            bytes == text.spec_bytes(),
            valid_utf8(bytes),
            all == spans_of(spans@),
            cuts(bytes, from as int, from as int),
            texts_of(pieces@) + pieces_from(bytes, all.skip(i as int), from as int)
                == pieces_from(bytes, all, 0),
        decreases spans.len() - i,
    {
        let (start, end) = spans[i];
        let ghost rest = all.skip(i as int);
        assert(rest.skip(1) =~= all.skip(i + 1));
        if from <= start && is_cut(text, start, end) {
            push_trimmed(&mut pieces, substring(text, from, start));
            let ghost with_gap = texts_of(pieces@);
            pieces.push(string_of(chars_of(substring(text, start, end)).as_slice()));
            assert(texts_of(pieces@) =~= with_gap + seq![
                slice_text(bytes, start as int, end as int),
            ]);
            from = end;
        }
        i += 1;
    }
    proof {
        is_char_boundary_start_end_of_seq(bytes);
    }
    push_trimmed(&mut pieces, substring(text, from, byte_len(text)));
    pieces
}

} // verus!
