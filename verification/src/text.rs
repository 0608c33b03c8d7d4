//! Character sequences: searching, slicing and rewriting.
//!
//! Every string this library inspects is modelled as a `Seq<char>`. The spec
//! functions here say what a search or a cut yields; the executable functions
//! work on `&[char]` and are proved against them.

use vstd::prelude::*;
use vstd::slice::slice_subrange;

verus! {

/// `String::push` appends one character.
pub assume_specification[ String::push ](s: &mut String, c: char)
    ensures
        final(s)@ == old(s)@.push(c),
;

/// `pat` stands in `s` at index `i`.
pub open spec fn occurs_at(s: Seq<char>, pat: Seq<char>, i: int) -> bool {
    &&& 0 <= i
    &&& i + pat.len() <= s.len()
    &&& s.subrange(i, i + pat.len()) == pat
}

/// `pat` stands somewhere in `s`.
pub open spec fn occurs(s: Seq<char>, pat: Seq<char>) -> bool {
    exists|i: int| occurs_at(s, pat, i)
}

/// `i` is the least index at which `pat` stands in `s`.
pub open spec fn first_at(s: Seq<char>, pat: Seq<char>, i: int) -> bool {
    &&& occurs_at(s, pat, i)
    &&& forall|j: int| 0 <= j < i ==> !occurs_at(s, pat, j)
}

/// `i` is the greatest index at which `pat` stands in `s`.
pub open spec fn last_at(s: Seq<char>, pat: Seq<char>, i: int) -> bool {
    &&& occurs_at(s, pat, i)
    &&& forall|j: int| i < j ==> !occurs_at(s, pat, j)
}

/// The index of the first occurrence of `pat` in `s`.
pub open spec fn first_index(s: Seq<char>, pat: Seq<char>) -> Option<int> {
    if occurs(s, pat) {
        Some(choose|i: int| first_at(s, pat, i))
    } else {
        None
    }
}

/// The index of the last occurrence of `pat` in `s`.
pub open spec fn last_index(s: Seq<char>, pat: Seq<char>) -> Option<int> {
    if occurs(s, pat) {
        Some(choose|i: int| last_at(s, pat, i))
    } else {
        None
    }
}

/// What follows the first occurrence of `marker` in `s`.
pub open spec fn text_after(s: Seq<char>, marker: Seq<char>) -> Option<Seq<char>> {
    match first_index(s, marker) {
        Some(i) => Some(s.skip(i + marker.len())),
        None => None,
    }
}

/// What precedes the first occurrence of `stop` in `s`.
pub open spec fn text_before(s: Seq<char>, stop: Seq<char>) -> Option<Seq<char>> {
    match first_index(s, stop) {
        Some(i) => Some(s.take(i)),
        None => None,
    }
}

/// What precedes the first occurrence of `stop` in `s`, or all of `s` where
/// `stop` does not occur.
pub open spec fn text_up_to(s: Seq<char>, stop: Seq<char>) -> Seq<char> {
    match text_before(s, stop) {
        Some(head) => head,
        None => s,
    }
}

/// The text enclosed by the first `open` and the first `close` after it.
/// `None` where either is missing.
pub open spec fn text_between(s: Seq<char>, open: Seq<char>, close: Seq<char>) -> Option<
    Seq<char>,
> {
    match text_after(s, open) {
        Some(rest) => text_before(rest, close),
        None => None,
    }
}

/// The text that follows the first `marker` and runs to the first `stop`
/// after it, or to the end where no `stop` follows. `None` where `marker` is
/// missing.
pub open spec fn text_field(s: Seq<char>, marker: Seq<char>, stop: Seq<char>) -> Option<
    Seq<char>,
> {
    match text_after(s, marker) {
        Some(rest) => Some(text_up_to(rest, stop)),
        None => None,
    }
}

/// `s` with every occurrence of `pat` replaced by `with`, scanning from the
/// left and resuming after each occurrence. An empty `pat` changes nothing.
pub open spec fn replaced(s: Seq<char>, pat: Seq<char>, with: Seq<char>) -> Seq<char>
    decreases s.len(),
{
    if pat.len() == 0 {
        s
    } else {
        match first_index(s, pat) {
            // An occurrence always lies within `s`; saying so here lets the
            // definition be seen to end.
            Some(i) => if 0 <= i && i + pat.len() <= s.len() {
                s.take(i) + with + replaced(s.skip(i + pat.len()), pat, with)
            } else {
                s
            },
            None => s,
        }
    }
}

/// The pieces of `s` between the occurrences of `sep`, scanning from the
/// left and resuming after each occurrence. There is always at least one
/// piece; an empty `sep` splits nothing.
pub open spec fn split_on(s: Seq<char>, sep: Seq<char>) -> Seq<Seq<char>>
    decreases s.len(),
{
    if sep.len() == 0 {
        seq![s]
    } else {
        match first_index(s, sep) {
            // An occurrence always lies within `s`; saying so here lets the
            // definition be seen to end.
            Some(i) => if 0 <= i && i + sep.len() <= s.len() {
                seq![s.take(i)] + split_on(s.skip(i + sep.len()), sep)
            } else {
                seq![s]
            },
            None => seq![s],
        }
    }
}

/// The characters that count as white space: those with the Unicode property
/// `White_Space`.
pub open spec fn is_whitespace(c: char) -> bool {
    ||| '\u{9}' <= c <= '\u{D}'
    ||| c == ' '
    ||| c == '\u{85}'
    ||| c == '\u{A0}'
    ||| c == '\u{1680}'
    ||| '\u{2000}' <= c <= '\u{200A}'
    ||| c == '\u{2028}'
    ||| c == '\u{2029}'
    ||| c == '\u{202F}'
    ||| c == '\u{205F}'
    ||| c == '\u{3000}'
}

/// `s` without the white space it begins with.
pub open spec fn trim_start(s: Seq<char>) -> Seq<char>
    decreases s.len(),
{
    if s.len() > 0 && is_whitespace(s[0]) {
        trim_start(s.skip(1))
    } else {
        s
    }
}

/// `s` without the white space it ends with.
pub open spec fn trim_end(s: Seq<char>) -> Seq<char>
    decreases s.len(),
{
    if s.len() > 0 && is_whitespace(s.last()) {
        trim_end(s.drop_last())
    } else {
        s
    }
}

/// `s` without the white space at either end.
pub open spec fn trimmed(s: Seq<char>) -> Seq<char> {
    trim_end(trim_start(s))
}

/// Whether `c` is one of the ten digits.
pub open spec fn is_digit(c: char) -> bool {
    '0' <= c <= '9'
}

/// The number that a text of digits writes, in base ten.
pub open spec fn decimal(digits: Seq<char>) -> int
    decreases digits.len(),
{
    if digits.len() == 0 {
        0
    } else {
        decimal(digits.drop_last()) * 10 + (digits.last() as int - '0' as int)
    }
}

/// `s` without one leading `+`.
pub open spec fn unsigned(s: Seq<char>) -> Seq<char> {
    if s.len() > 0 && s[0] == '+' {
        s.skip(1)
    } else {
        s
    }
}

/// The number that `s` writes, where `s` is one or more digits, with or
/// without a `+` before them, and the number is at most `max`.
pub open spec fn number_up_to(s: Seq<char>, max: int) -> Option<int> {
    let digits = unsigned(s);
    if digits.len() > 0 && (forall|i: int| 0 <= i < digits.len() ==> is_digit(digits[i]))
        && decimal(digits) <= max {
        Some(decimal(digits))
    } else {
        None
    }
}

/// The view of an optional string.
pub open spec fn view_of(o: Option<String>) -> Option<Seq<char>> {
    match o {
        Some(s) => Some(s@),
        None => None,
    }
}

/// The view of an optional slice of characters.
pub open spec fn chars_view_of(o: Option<&[char]>) -> Option<Seq<char>> {
    match o {
        Some(s) => Some(s@),
        None => None,
    }
}

/// An optional machine index as a mathematical one.
pub open spec fn index_of(o: Option<usize>) -> Option<int> {
    match o {
        Some(i) => Some(i as int),
        None => None,
    }
}

/// The least occurrence is unique: whoever finds it has found `first_index`.
pub proof fn lemma_first_index_is(s: Seq<char>, pat: Seq<char>, i: int)
    requires
        first_at(s, pat, i),
    ensures
        first_index(s, pat) == Some(i),
{
    let j = choose|j: int| first_at(s, pat, j);
    assert(first_at(s, pat, j));
    assert(j == i);
}

/// The greatest occurrence is unique: whoever finds it has found `last_index`.
pub proof fn lemma_last_index_is(s: Seq<char>, pat: Seq<char>, i: int)
    requires
        last_at(s, pat, i),
    ensures
        last_index(s, pat) == Some(i),
{
    let j = choose|j: int| last_at(s, pat, j);
    assert(last_at(s, pat, j));
    assert(j == i);
}

/// Among the indices up to an occurrence at `bound` there is a least one.
proof fn lemma_least_occurrence(s: Seq<char>, pat: Seq<char>, bound: int) -> (i: int)
    requires
        occurs_at(s, pat, bound),
    ensures
        first_at(s, pat, i),
        i <= bound,
    decreases bound,
{
    if exists|j: int| 0 <= j < bound && occurs_at(s, pat, j) {
        let j = choose|j: int| 0 <= j < bound && occurs_at(s, pat, j);
        lemma_least_occurrence(s, pat, j)
    } else {
        bound
    }
}

/// Among the indices from an occurrence at `bound` on there is a greatest one.
proof fn lemma_greatest_occurrence(s: Seq<char>, pat: Seq<char>, bound: int) -> (i: int)
    requires
        occurs_at(s, pat, bound),
    ensures
        last_at(s, pat, i),
        bound <= i,
    decreases s.len() - bound,
{
    if exists|j: int| bound < j && occurs_at(s, pat, j) {
        let j = choose|j: int| bound < j && occurs_at(s, pat, j);
        lemma_greatest_occurrence(s, pat, j)
    } else {
        bound
    }
}

/// `first_index` is the least index at which the pattern stands, and is
/// `None` exactly where the pattern stands nowhere.
pub proof fn lemma_first_index(s: Seq<char>, pat: Seq<char>)
    ensures
        match first_index(s, pat) {
            Some(i) => first_at(s, pat, i),
            None => forall|i: int| !occurs_at(s, pat, i),
        },
{
    if occurs(s, pat) {
        let w = choose|i: int| occurs_at(s, pat, i);
        lemma_least_occurrence(s, pat, w);
    }
}

/// `last_index` is the greatest index at which the pattern stands, and is
/// `None` exactly where the pattern stands nowhere.
pub proof fn lemma_last_index(s: Seq<char>, pat: Seq<char>)
    ensures
        match last_index(s, pat) {
            Some(i) => last_at(s, pat, i),
            None => forall|i: int| !occurs_at(s, pat, i),
        },
{
    if occurs(s, pat) {
        let w = choose|i: int| occurs_at(s, pat, i);
        lemma_greatest_occurrence(s, pat, w);
    }
}

/// The characters of a string, in order.
pub fn chars_of(s: &str) -> (v: Vec<char>)
    ensures
        v@ == s@,
{
    let mut v: Vec<char> = Vec::new();
    for c in it: s.chars()
        invariant
            v@ == it.seq().take(it.index() as int),
            it.seq() == s@,
    {
        v.push(c);
    }
    v
}

/// The string made of the given characters, in order.
pub fn string_of(chars: &[char]) -> (s: String)
    ensures
        s@ == chars@,
{
    let mut s = String::new();
    let mut i: usize = 0;
    while i < chars.len()
        invariant
            i <= chars.len(),
            s@ == chars@.take(i as int),
        decreases chars.len() - i,
    {
        s.push(chars[i]);
        i += 1;
    }
    s
}

/// Appends the given characters to `out`.
pub fn push_chars(out: &mut Vec<char>, chars: &[char])
    ensures
        final(out)@ == old(out)@ + chars@,
{
    let mut i: usize = 0;
    while i < chars.len()
        invariant
            i <= chars.len(),
            out@ == old(out)@ + chars@.take(i as int),
        decreases chars.len() - i,
    {
        out.push(chars[i]);
        i += 1;
    }
}

/// Whether `pat` stands in `text` at index `i`.
pub fn matches_at(text: &[char], pat: &[char], i: usize) -> (b: bool)
    ensures
        b == occurs_at(text@, pat@, i as int),
{
    if pat.len() > text.len() || i > text.len() - pat.len() {
        return false;
    }
    let mut k: usize = 0;
    while k < pat.len()
        invariant
            k <= pat.len(),
            i + pat.len() <= text.len(),
            forall|j: int| 0 <= j < k ==> text@[i + j] == pat@[j],
        decreases pat.len() - k,
    {
        if text[i + k] != pat[k] {
            return false;
        }
        k += 1;
    }
    assert(text@.subrange(i as int, i + pat.len()) =~= pat@);
    true
}

/// Whether `text` begins with `pat`.
pub fn starts_with(text: &[char], pat: &[char]) -> (b: bool)
    ensures
        b == pat@.is_prefix_of(text@),
{
    matches_at(text, pat, 0)
}

/// The index of the first occurrence of `pat` in `text`.
pub fn find(text: &[char], pat: &[char]) -> (r: Option<usize>)
    ensures
        index_of(r) == first_index(text@, pat@),
        r matches Some(i) ==> first_at(text@, pat@, i as int),
{
    if pat.len() > text.len() {
        return None;
    }
    let last: usize = text.len() - pat.len();
    let mut i: usize = 0;
    loop
        invariant
            i <= last,
            last == text.len() - pat.len(),
            forall|j: int| 0 <= j < i ==> !occurs_at(text@, pat@, j),
        decreases last - i,
    {
        if matches_at(text, pat, i) {
            proof {
                lemma_first_index_is(text@, pat@, i as int);
            }
            return Some(i);
        }
        if i == last {
            return None;
        }
        i += 1;
    }
}

/// The index of the last occurrence of `pat` in `text`.
pub fn rfind(text: &[char], pat: &[char]) -> (r: Option<usize>)
    ensures
        index_of(r) == last_index(text@, pat@),
        r matches Some(i) ==> last_at(text@, pat@, i as int),
{
    if pat.len() > text.len() {
        return None;
    }
    let mut i: usize = text.len() - pat.len();
    loop
        invariant
            i + pat.len() <= text.len(),
            forall|j: int| i < j ==> !occurs_at(text@, pat@, j),
        decreases i,
    {
        if matches_at(text, pat, i) {
            proof {
                lemma_last_index_is(text@, pat@, i as int);
            }
            return Some(i);
        }
        if i == 0 {
            return None;
        }
        i -= 1;
    }
}

/// Whether `c` is one of the characters of `text`.
pub fn has_char(text: &[char], c: char) -> (b: bool)
    ensures
        b == text@.contains(c),
{
    let mut i: usize = 0;
    while i < text.len()
        invariant
            i <= text.len(),
            forall|j: int| 0 <= j < i ==> text@[j] != c,
        decreases text.len() - i,
    {
        if text[i] == c {
            return true;
        }
        i += 1;
    }
    false
}

/// The index of the first occurrence of `pat` in `text`.
pub fn position(text: &[char], pat: &str) -> (r: Option<usize>)
    ensures
        index_of(r) == first_index(text@, pat@),
        r matches Some(i) ==> first_at(text@, pat@, i as int),
{
    let pat = chars_of(pat);
    find(text, pat.as_slice())
}

/// The index of the last occurrence of `pat` in `text`.
pub fn last_position(text: &[char], pat: &str) -> (r: Option<usize>)
    ensures
        index_of(r) == last_index(text@, pat@),
        r matches Some(i) ==> last_at(text@, pat@, i as int),
{
    let pat = chars_of(pat);
    rfind(text, pat.as_slice())
}

/// Dropping `n` leading white-space characters that are followed by none is
/// trimming the start.
proof fn lemma_trim_start(s: Seq<char>, n: int)
    requires
        0 <= n <= s.len(),
        forall|j: int| 0 <= j < n ==> is_whitespace(s[j]),
        n < s.len() ==> !is_whitespace(s[n]),
    ensures
        trim_start(s) == s.skip(n),
    decreases n,
{
    if n > 0 {
        lemma_trim_start(s.skip(1), n - 1);
    }
}

/// Keeping the first `n` characters, the last of which is no white space and
/// after which all are, is trimming the end.
proof fn lemma_trim_end(s: Seq<char>, n: int)
    requires
        0 <= n <= s.len(),
        forall|j: int| n <= j < s.len() ==> is_whitespace(s[j]),
        n > 0 ==> !is_whitespace(s[n - 1]),
    ensures
        trim_end(s) == s.take(n),
    decreases s.len() - n,
{
    if n < s.len() {
        lemma_trim_end(s.drop_last(), n);
    }
}

/// Whether `c` is white space.
pub fn whitespace(c: char) -> (b: bool)
    ensures
        b == is_whitespace(c),
{
    ('\u{9}' <= c && c <= '\u{D}') || c == ' ' || c == '\u{85}' || c == '\u{A0}' || c
        == '\u{1680}' || ('\u{2000}' <= c && c <= '\u{200A}') || c == '\u{2028}' || c
        == '\u{2029}' || c == '\u{202F}' || c == '\u{205F}' || c == '\u{3000}'
}

/// `text` without the white space at either end.
pub fn trim<'a>(text: &'a [char]) -> (r: &'a [char])
    ensures
        r@ == trimmed(text@),
{
    let mut start: usize = 0;
    while start < text.len() && whitespace(text[start])
        invariant
            start <= text.len(),
            forall|j: int| 0 <= j < start ==> is_whitespace(text@[j]),
        decreases text.len() - start,
    {
        start += 1;
    }
    let mut end: usize = text.len();
    while end > start && whitespace(text[end - 1])
        invariant
            start <= end <= text.len(),
            forall|j: int| end <= j < text.len() ==> is_whitespace(text@[j]),
        decreases end,
    {
        end -= 1;
    }
    proof {
        lemma_trim_start(text@, start as int);
        lemma_trim_end(text@.skip(start as int), end - start);
    }
    slice_subrange(text, start, end)
}

/// Whether two texts are the same.
pub fn same(a: &[char], b: &[char]) -> (r: bool)
    ensures
        r == (a@ == b@),
{
    if a.len() != b.len() {
        return false;
    }
    let r = matches_at(a, b, 0);
    proof {
        assert(a@.subrange(0, b@.len() as int) =~= a@);
    }
    r
}

/// The pieces of `text` between the occurrences of `sep`.
pub fn split<'a>(text: &'a [char], sep: &str) -> (pieces: Vec<&'a [char]>)
    ensures
        pieces@.map_values(|p: &[char]| p@) == split_on(text@, sep@),
{
    let sep_chars = chars_of(sep);
    let mut pieces: Vec<&'a [char]> = Vec::new();
    if sep_chars.len() == 0 {
        pieces.push(text);
        return pieces;
    }
    let mut rest: &'a [char] = text;
    loop
        invariant
            sep_chars@ == sep@,
            sep@.len() > 0,
            pieces@.map_values(|p: &[char]| p@) + split_on(rest@, sep@) == split_on(
                text@,
                sep@,
            ),
        decreases rest.len(),
    {
        match find(rest, sep_chars.as_slice()) {
            Some(i) => {
                let head = slice_subrange(rest, 0, i);
                let tail = slice_subrange(rest, i + sep_chars.len(), rest.len());
                pieces.push(head);
                rest = tail;
            },
            None => {
                pieces.push(rest);
                return pieces;
            },
        }
    }
}

/// A text of digits writes no negative number.
proof fn lemma_decimal_nonnegative(digits: Seq<char>)
    requires
        forall|i: int| 0 <= i < digits.len() ==> is_digit(digits[i]),
    ensures
        0 <= decimal(digits),
    decreases digits.len(),
{
    if digits.len() > 0 {
        lemma_decimal_nonnegative(digits.drop_last());
    }
}

/// The number written by the first digits of a text is no greater than the
/// number written by all of them.
proof fn lemma_decimal_grows(digits: Seq<char>, n: int)
    requires
        0 <= n <= digits.len(),
        forall|i: int| 0 <= i < digits.len() ==> is_digit(digits[i]),
    ensures
        0 <= decimal(digits.take(n)) <= decimal(digits),
    decreases digits.len() - n,
{
    if n == digits.len() {
        assert(digits.take(n) =~= digits);
        lemma_decimal_nonnegative(digits);
    } else {
        lemma_decimal_grows(digits, n + 1);
        assert(digits.take(n + 1).drop_last() =~= digits.take(n));
        lemma_decimal_nonnegative(digits.take(n));
    }
}

/// The number that `text` writes, if it writes one that is at most `max`.
pub fn parse_up_to(text: &[char], max: usize) -> (r: Option<usize>)
    ensures
        index_of(r) == number_up_to(text@, max as int),
{
    let end = text.len();
    let digits = if end > 0 && text[0] == '+' {
        slice_subrange(text, 1, end)
    } else {
        text
    };
    if digits.len() == 0 {
        return None;
    }
    let mut value: usize = 0;
    let mut i: usize = 0;
    while i < digits.len()
        invariant
            i <= digits.len(),
            digits@ == unsigned(text@),
            forall|j: int| 0 <= j < i ==> is_digit(digits@[j]),
            value == decimal(digits@.take(i as int)),
            value <= max,
        decreases digits.len() - i,
    {
        let c = digits[i];
        if !('0' <= c && c <= '9') {
            return None;
        }
        let d: usize = (c as u32 - '0' as u32) as usize;
        assert(digits@.take(i + 1).drop_last() =~= digits@.take(i as int));
        if value > (usize::MAX - d) / 10 || value * 10 + d > max {
            proof {
                if forall|j: int| 0 <= j < digits@.len() ==> is_digit(digits@[j]) {
                    lemma_decimal_grows(digits@, i + 1);
                }
            }
            return None;
        }
        value = value * 10 + d;
        i += 1;
    }
    assert(digits@.take(i as int) =~= digits@);
    Some(value)
}

/// Appends the characters of `s` to `out`.
pub fn push_str(out: &mut Vec<char>, s: &str)
    ensures
        final(out)@ == old(out)@ + s@,
{
    let chars = chars_of(s);
    push_chars(out, chars.as_slice());
}

/// Whether `text` begins with `prefix`.
pub fn has_prefix(text: &[char], prefix: &str) -> (b: bool)
    ensures
        b == prefix@.is_prefix_of(text@),
{
    let pat = chars_of(prefix);
    starts_with(text, pat.as_slice())
}

/// Whether `pat` occurs in `text`.
pub fn contains(text: &[char], pat: &str) -> (b: bool)
    ensures
        b == occurs(text@, pat@),
{
    let pat = chars_of(pat);
    find(text, pat.as_slice()).is_some()
}

/// What follows the first occurrence of `marker` in `text`.
pub fn after<'a>(text: &'a [char], marker: &str) -> (r: Option<&'a [char]>)
    ensures
        chars_view_of(r) == text_after(text@, marker@),
{
    let pat = chars_of(marker);
    let end = text.len();
    match find(text, pat.as_slice()) {
        Some(i) => Some(slice_subrange(text, i + pat.len(), end)),
        None => None,
    }
}

/// What precedes the first occurrence of `stop` in `text`.
pub fn before<'a>(text: &'a [char], stop: &str) -> (r: Option<&'a [char]>)
    ensures
        chars_view_of(r) == text_before(text@, stop@),
{
    let pat = chars_of(stop);
    match find(text, pat.as_slice()) {
        Some(i) => Some(slice_subrange(text, 0, i)),
        None => None,
    }
}

/// What precedes the first occurrence of `stop` in `text`, or all of `text`.
pub fn up_to<'a>(text: &'a [char], stop: &str) -> (r: &'a [char])
    ensures
        r@ == text_up_to(text@, stop@),
{
    match before(text, stop) {
        Some(head) => head,
        None => text,
    }
}

/// The text enclosed by the first `open` and the first `close` after it.
pub fn between<'a>(text: &'a [char], open: &str, close: &str) -> (r: Option<&'a [char]>)
    ensures
        chars_view_of(r) == text_between(text@, open@, close@),
{
    match after(text, open) {
        Some(rest) => before(rest, close),
        None => None,
    }
}

/// The text that follows the first `marker` and runs to the first `stop`
/// after it, or to the end.
pub fn field<'a>(text: &'a [char], marker: &str, stop: &str) -> (r: Option<&'a [char]>)
    ensures
        chars_view_of(r) == text_field(text@, marker@, stop@),
{
    match after(text, marker) {
        Some(rest) => Some(up_to(rest, stop)),
        None => None,
    }
}

/// `text` with every occurrence of `pat` replaced by `with`.
pub fn replace(text: &[char], pat: &str, with: &str) -> (out: Vec<char>)
    ensures
        out@ == replaced(text@, pat@, with@),
{
    let pat_chars = chars_of(pat);
    let with_chars = chars_of(with);
    let mut out: Vec<char> = Vec::new();
    if pat_chars.len() == 0 {
        push_chars(&mut out, text);
        return out;
    }
    let mut rest: &[char] = text;
    loop
        invariant
            pat_chars@ == pat@,
            with_chars@ == with@,
            pat@.len() > 0,
            out@ + replaced(rest@, pat@, with@) == replaced(text@, pat@, with@),
        decreases rest.len(),
    {
        match find(rest, pat_chars.as_slice()) {
            Some(i) => {
                push_chars(&mut out, slice_subrange(rest, 0, i));
                push_chars(&mut out, with_chars.as_slice());
                let tail = slice_subrange(rest, i + pat_chars.len(), rest.len());
                rest = tail;
            },
            None => {
                push_chars(&mut out, rest);
                return out;
            },
        }
    }
}

} // verus!
