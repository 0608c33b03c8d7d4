//! Turning the bytes of a page into text.
//!
//! A page is decoded as UTF-8, Shift_JIS and EUC-JP in turn; the first
//! decoding that is free of errors and looks like text is taken. Decoding is
//! done by the `encoding_rs` crate.

use vstd::prelude::*;
use crate::pattern::byte_len;
use crate::text::chars_of;

verus! {

/// The encodings that a page is tried in.
#[derive(Debug, Clone, Copy, PartialEq, Eq, Structural)]
pub enum Charset {
    Utf8,
    ShiftJis,
    EucJp,
}

/// What decoding gave: the text, and whether malformed input was replaced in
/// it.
#[derive(Debug)]
pub struct Decoded {
    pub text: String,
    pub had_errors: bool,
}

/// The text that `bytes` decode to in `charset`, a byte order mark at their
/// start deciding the encoding in the charset's place, and whether malformed
/// input was replaced in it.
pub uninterp spec fn decoded(charset: Charset, bytes: Seq<u8>) -> (Seq<char>, bool);

/// The largest input that is decoded: the decoder sets aside a buffer of
/// several times the input's length, and that length must be a machine
/// number.
pub open spec fn decodable(bytes: Seq<u8>) -> bool {
    bytes.len() <= usize::MAX / 8
}

/// `encoding_rs::Encoding::decode`, called on the encoding that `charset`
/// stands for. The contract claims only that the text and the error flag are
/// the ones named `decoded`. The encoding that was used is not handed on.
#[verifier::external_body]
fn decode(charset: Charset, bytes: &[u8]) -> (r: Decoded)
    requires
        decodable(bytes@),
    ensures
        (r.text@, r.had_errors) == decoded(charset, bytes@),
{
    let encoding = match charset {
        Charset::Utf8 => encoding_rs::UTF_8,
        Charset::ShiftJis => encoding_rs::SHIFT_JIS,
        Charset::EucJp => encoding_rs::EUC_JP,
    };
    let (text, _, had_errors) = encoding.decode(bytes);
    Decoded { text: text.into_owned(), had_errors }
}

/// The characters that a page of this kind is expected to hold: ASCII,
/// hiragana, katakana and the common ideographs.
pub open spec fn is_expected(c: char) -> bool {
    ||| c <= '\u{7F}'
    ||| '\u{3040}' <= c <= '\u{309F}'
    ||| '\u{30A0}' <= c <= '\u{30FF}'
    ||| '\u{4E00}' <= c <= '\u{9FAF}'
}

/// How many of the characters of `text` are expected ones.
pub open spec fn expected_count(text: Seq<char>) -> nat
    decreases text.len(),
{
    if text.len() == 0 {
        0
    } else {
        expected_count(text.drop_last()) + if is_expected(text.last()) {
            1nat
        } else {
            0nat
        }
    }
}

/// A text looks like text where its expected characters are more than seven
/// tenths of its length in bytes.
pub open spec fn valid_content(text: Seq<char>) -> bool {
    10 * expected_count(text) > 7 * vstd::utf8::encode_utf8(text).len()
}

/// Whether `c` is an expected character.
pub fn expected(c: char) -> (b: bool)
    ensures
        b == is_expected(c),
{
    c <= '\u{7F}' || ('\u{3040}' <= c && c <= '\u{309F}') || ('\u{30A0}' <= c && c <= '\u{30FF}')
        || ('\u{4E00}' <= c && c <= '\u{9FAF}')
}

/// Whether `text` looks like text.
pub fn is_valid_content(text: &str) -> (b: bool)
    ensures
        b == valid_content(text@),
{
    let chars = chars_of(text);
    let mut count: usize = 0;
    let mut i: usize = 0;
    while i < chars.len()
        invariant
            i <= chars.len(),
            count == expected_count(chars@.take(i as int)),
            count <= i,
        decreases chars.len() - i,
    {
        assert(chars@.take(i + 1).drop_last() =~= chars@.take(i as int));
        if expected(chars[i]) {
            count += 1;
        }
        i += 1;
    }
    assert(chars@.take(i as int) =~= chars@);
    let bytes = byte_len(text);
    10 * (count as u128) > 7 * (bytes as u128)
}

/// The text that is taken of a row of decodings: that of the first one which
/// is free of errors and looks like text, else `fallback`.
pub open spec fn chosen_text(attempts: Seq<(Seq<char>, bool)>, fallback: Seq<char>) -> Seq<char>
    decreases attempts.len(),
{
    if attempts.len() == 0 {
        fallback
    } else if !attempts[0].1 && valid_content(attempts[0].0) {
        attempts[0].0
    } else {
        chosen_text(attempts.skip(1), fallback)
    }
}

/// Decodings as pairs of text and error flag.
pub open spec fn attempts_of(attempts: Seq<Decoded>) -> Seq<(Seq<char>, bool)> {
    Seq::new(attempts.len(), |i: int| (attempts[i].text@, attempts[i].had_errors))
}

/// Takes the first decoding that is free of errors and looks like text, else
/// `fallback`.
pub fn choose_decoding(attempts: Vec<Decoded>, fallback: String) -> (text: String)
    ensures
        text@ == chosen_text(attempts_of(attempts@), fallback@),
{
    let mut rest = attempts;
    let ghost all = attempts_of(rest@);
    let ghost mut at: int = 0;
    assert(all.skip(0) =~= all);
    while rest.len() > 0
        invariant
            0 <= at <= all.len(),
            all == attempts_of(attempts@),
            attempts_of(rest@) == all.skip(at),
            chosen_text(all.skip(at), fallback@) == chosen_text(all, fallback@),
        decreases rest.len(),
    {
        let first = rest.remove(0);
        assert(all.skip(at).skip(1) =~= all.skip(at + 1));
        if !first.had_errors && is_valid_content(first.text.as_str()) {
            return first.text;
        }
        proof {
            at = at + 1;
        }
    }
    fallback
}

/// The three decodings of `bytes`, in the order they are tried.
pub open spec fn decodings(bytes: Seq<u8>) -> Seq<(Seq<char>, bool)> {
    seq![
        decoded(Charset::Utf8, bytes),
        decoded(Charset::ShiftJis, bytes),
        decoded(Charset::EucJp, bytes),
    ]
}

/// The text of a page. Where no decoding is free of errors and looks like
/// text, the page is read as UTF-8 with what is malformed replaced.
pub fn detect_and_decode_content(bytes: &[u8]) -> (text: String)
    requires
        decodable(bytes@),
    ensures
        text@ == chosen_text(decodings(bytes@), decoded(Charset::Utf8, bytes@).0),
{
    let mut attempts: Vec<Decoded> = Vec::new();
    attempts.push(decode(Charset::Utf8, bytes));
    attempts.push(decode(Charset::ShiftJis, bytes));
    attempts.push(decode(Charset::EucJp, bytes));
    let fallback = decode(Charset::Utf8, bytes);
    assert(attempts_of(attempts@) =~= decodings(bytes@));
    choose_decoding(attempts, fallback.text)
}

} // verus!
