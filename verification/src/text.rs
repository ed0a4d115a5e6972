//! Small text helpers shared by the rest of the crate: decimal numbers as
//! text and back, and lossy decoding of bytes.

use vstd::prelude::*;
use vstd::utf8::{decode_utf8, valid_utf8};

verus! {

/// The text that `bytes` decode to as UTF-8, with U+FFFD in place of every
/// part that is not UTF-8.
pub uninterp spec fn utf8_lossy(bytes: Seq<u8>) -> Seq<char>;

/// `String::from_utf8_lossy`, copied into an owned string.
///
/// Trusted: the result is a function of the bytes, and bytes that are valid
/// UTF-8 decode to the text they encode.
#[verifier::external_body]
fn from_utf8_lossy(value: &[u8]) -> (s: String)
    ensures
        s@ == utf8_lossy(value@),
        valid_utf8(value@) ==> s@ == decode_utf8(value@),
{
    String::from_utf8_lossy(value).into_owned()
}

/// Decodes bytes as UTF-8 text; what is not UTF-8 becomes U+FFFD.
pub fn bytes_to_string(value: &[u8]) -> (s: String)
    ensures
        s@ == utf8_lossy(value@),
        valid_utf8(value@) ==> s@ == decode_utf8(value@),
{
    from_utf8_lossy(value)
}

/// Whether `c` is ASCII white space.
pub open spec fn is_ascii_space(c: char) -> bool {
    c == ' ' || c == '\t' || c == '\n' || c == '\x0C' || c == '\r'
}

/// `text` without the ASCII white space at its start.
pub open spec fn trimmed_start(text: Seq<char>) -> Seq<char>
    decreases text.len(),
{
    if text.len() > 0 && is_ascii_space(text.first()) {
        trimmed_start(text.drop_first())
    } else {
        text
    }
}

/// `text` without the ASCII white space at its end.
pub open spec fn trimmed_end(text: Seq<char>) -> Seq<char>
    decreases text.len(),
{
    if text.len() > 0 && is_ascii_space(text.last()) {
        trimmed_end(text.drop_last())
    } else {
        text
    }
}

/// `text` without the ASCII white space at either end.
pub open spec fn trimmed(text: Seq<char>) -> Seq<char> {
    trimmed_end(trimmed_start(text))
}

/// `str::trim_ascii`.
///
/// Trusted: the result is the text without the leading and trailing ASCII
/// white space (space, tab, line feed, form feed, carriage return).
#[verifier::external_body]
pub(crate) fn trim_ascii(text: &str) -> (t: &str)
    ensures
        t@ == trimmed(text@),
{
    text.trim_ascii()
}

/// Whether `a` and `b` hold the same bytes.
pub fn bytes_eq(a: &[u8], b: &[u8]) -> (same: bool)
    ensures
        same == (a@ == b@),
{
    if a.len() != b.len() {
        return false;
    }
    let mut i: usize = 0;
    while i < a.len()
        invariant
            a@.len() == b@.len(),
            i <= a@.len(),
            a@.subrange(0, i as int) == b@.subrange(0, i as int),
        decreases a@.len() - i,
    {
        if a[i] != b[i] {
            return false;
        }
        assert(a@.subrange(0, i + 1) =~= a@.subrange(0, i as int).push(a@[i as int]));
        assert(b@.subrange(0, i + 1) =~= b@.subrange(0, i as int).push(b@[i as int]));
        i += 1;
    }
    assert(a@ =~= a@.subrange(0, i as int));
    assert(b@ =~= b@.subrange(0, i as int));
    true
}

/// Whether `s` begins with `prefix`.
pub fn starts_with_bytes(s: &[u8], prefix: &[u8]) -> (starts: bool)
    ensures
        starts == prefix@.is_prefix_of(s@),
{
    if prefix.len() > s.len() {
        return false;
    }
    let mut i: usize = 0;
    while i < prefix.len()
        invariant
            prefix@.len() <= s@.len(),
            i <= prefix@.len(),
            prefix@.subrange(0, i as int) == s@.subrange(0, i as int),
        decreases prefix@.len() - i,
    {
        if s[i] != prefix[i] {
            return false;
        }
        assert(s@.subrange(0, i + 1) =~= s@.subrange(0, i as int).push(s@[i as int]));
        assert(prefix@.subrange(0, i + 1) =~= prefix@.subrange(0, i as int).push(
            prefix@[i as int],
        ));
        i += 1;
    }
    assert(prefix@ =~= prefix@.subrange(0, i as int));
    true
}

/// The character that stands for the digit `d`.
pub open spec fn digit_char(d: nat) -> char {
    if d == 0 {
        '0'
    } else if d == 1 {
        '1'
    } else if d == 2 {
        '2'
    } else if d == 3 {
        '3'
    } else if d == 4 {
        '4'
    } else if d == 5 {
        '5'
    } else if d == 6 {
        '6'
    } else if d == 7 {
        '7'
    } else if d == 8 {
        '8'
    } else {
        '9'
    }
}

/// The decimal notation of `n`, without sign or leading zeros.
pub open spec fn decimal_text(n: nat) -> Seq<char>
    decreases n,
{
    if n < 10 {
        seq![digit_char(n)]
    } else {
        decimal_text(n / 10).push(digit_char(n % 10))
    }
}

/// One decimal digit as a string.
fn digit_str(d: usize) -> (s: &'static str)
    requires
        d < 10,
    ensures
        s@ == seq![digit_char(d as nat)],
{
    proof {
        reveal_strlit("0");
        reveal_strlit("1");
        reveal_strlit("2");
        reveal_strlit("3");
        reveal_strlit("4");
        reveal_strlit("5");
        reveal_strlit("6");
        reveal_strlit("7");
        reveal_strlit("8");
        reveal_strlit("9");
    }
    let s = if d == 0 {
        "0"
    } else if d == 1 {
        "1"
    } else if d == 2 {
        "2"
    } else if d == 3 {
        "3"
    } else if d == 4 {
        "4"
    } else if d == 5 {
        "5"
    } else if d == 6 {
        "6"
    } else if d == 7 {
        "7"
    } else if d == 8 {
        "8"
    } else {
        "9"
    };
    assert(s@ =~= seq![digit_char(d as nat)]);
    s
}

/// Writes `n` in decimal.
pub fn decimal_string(n: usize) -> (s: String)
    ensures
        s@ == decimal_text(n as nat),
{
    let mut rest: usize = n / 10;
    let mut s = String::from_str(digit_str(n % 10));
    proof {
        assert(decimal_text(n as nat) =~= if rest == 0 {
            s@
        } else {
            decimal_text(rest as nat) + s@
        });
    }
    while rest > 0
        invariant
            decimal_text(n as nat) == (if rest == 0 {
                s@
            } else {
                decimal_text(rest as nat) + s@
            }),
        decreases rest,
    {
        let ghost old_text = s@;
        let ghost old_rest = rest;
        s = String::from_str(digit_str(rest % 10)).concat(s.as_str());
        rest = rest / 10;
        proof {
            assert(decimal_text(old_rest as nat) + old_text =~= if rest == 0 {
                s@
            } else {
                decimal_text(rest as nat) + s@
            });
        }
    }
    s
}

/// Whether `b` is an ASCII digit.
pub open spec fn is_digit(b: u8) -> bool {
    48 <= b <= 57
}

/// The number that `value` becomes when the digits of `text` from `pos` on
/// are written behind it; `None` where one of them is no digit.
pub open spec fn digits_from(text: Seq<u8>, pos: int, value: nat) -> Option<nat>
    decreases text.len() - pos,
{
    if pos < 0 || pos >= text.len() {
        Some(value)
    } else if is_digit(text[pos]) {
        digits_from(text, pos + 1, value * 10 + (text[pos] - 48) as nat)
    } else {
        None
    }
}

/// The number that `text` writes in decimal: an optional `+`, then one
/// digit or more and nothing else.
pub open spec fn decimal_value(text: Seq<u8>) -> Option<nat> {
    let start: int = if text.len() > 0 && text[0] == 43 {
        1
    } else {
        0
    };
    if start >= text.len() {
        None
    } else {
        digits_from(text, start, 0)
    }
}

/// The number that `text` writes in decimal, where it is `max` at most.
pub open spec fn number_within(text: Seq<u8>, max: nat) -> Option<nat> {
    match decimal_value(text) {
        Some(v) => if v <= max {
            Some(v)
        } else {
            None
        },
        None => None,
    }
}

/// Digits written behind a number never make it smaller.
pub proof fn lemma_digits_grow(text: Seq<u8>, pos: int, value: nat)
    requires
        0 <= pos,
    ensures
        digits_from(text, pos, value) is Some ==> digits_from(text, pos, value)->0 >= value,
    decreases text.len() - pos,
{
    if pos < text.len() && is_digit(text[pos]) {
        lemma_digits_grow(text, pos + 1, value * 10 + (text[pos] - 48) as nat);
    }
}

/// Reads a decimal number that is `max` at most.
pub fn parse_number(text: &[u8], max: u64) -> (number: Option<u64>)
    ensures
        number is Some == number_within(text@, max as nat) is Some,
        number is Some ==> number->0 == number_within(text@, max as nat)->0,
{
    let start: usize = if text.len() > 0 && text[0] == 43 {
        1
    } else {
        0
    };
    if start >= text.len() {
        return None;
    }
    let mut pos: usize = start;
    let mut value: u64 = 0;
    while pos < text.len()
        invariant
            start <= pos <= text@.len(),
            value <= max,
            digits_from(text@, pos as int, value as nat) == decimal_value(text@),
        decreases text@.len() - pos,
    {
        let b = text[pos];
        if b < 48 || b > 57 {
            return None;
        }
        let d: u64 = (b - 48) as u64;
        if d > max || value > (max - d) / 10 {
            proof {
                lemma_digits_grow(text@, pos + 1, (value * 10 + d) as nat);
            }
            return None;
        }
        value = value * 10 + d;
        pos += 1;
    }
    Some(value)
}

/// Reads a decimal number of 32 bits.
pub fn parse_u32(text: &[u8]) -> (number: Option<u32>)
    ensures
        number is Some == number_within(text@, u32::MAX as nat) is Some,
        number is Some ==> number->0 == number_within(text@, u32::MAX as nat)->0,
{
    match parse_number(text, 0xFFFF_FFFF) {
        Some(v) => Some(v as u32),
        None => None,
    }
}

/// Reads a decimal number of 64 bits.
pub fn parse_u64(text: &[u8]) -> (number: Option<u64>)
    ensures
        number is Some == number_within(text@, u64::MAX as nat) is Some,
        number is Some ==> number->0 == number_within(text@, u64::MAX as nat)->0,
{
    parse_number(text, 0xFFFF_FFFF_FFFF_FFFF)
}

/// What is cut off the ends of a part of a text.
#[derive(Debug, Clone, Copy, PartialEq, Eq, Structural)]
pub enum Padding {
    /// Spaces and tabs.
    Blank,
    /// Spaces, tabs and line breaks.
    Space,
    /// Double quotes.
    Quote,
}

/// Whether `b` is padding of the given kind.
pub open spec fn is_padding(b: u8, kind: Padding) -> bool {
    match kind {
        Padding::Blank => b == 32 || b == 9,
        Padding::Space => b == 32 || b == 9 || b == 10 || b == 13,
        Padding::Quote => b == 34,
    }
}

/// Whether `b` is padding of the given kind.
pub fn padding(b: u8, kind: Padding) -> (is: bool)
    ensures
        is == is_padding(b, kind),
{
    match kind {
        Padding::Blank => b == 32 || b == 9,
        Padding::Space => b == 32 || b == 9 || b == 10 || b == 13,
        Padding::Quote => b == 34,
    }
}

/// The index of the first `separator` at or behind `pos`, or the length
/// of the text where there is none.
pub open spec fn part_end(header: Seq<u8>, pos: int, separator: u8) -> int
    decreases header.len() - pos,
{
    if pos < 0 || pos >= header.len() {
        header.len() as int
    } else if header[pos] == separator {
        pos
    } else {
        part_end(header, pos + 1, separator)
    }
}

/// The first index in `[lo, hi]` behind the padding at the start of
/// `[lo, hi)`.
pub open spec fn front(header: Seq<u8>, lo: int, hi: int, kind: Padding) -> int
    decreases hi - lo,
{
    if lo < 0 || lo >= hi || hi > header.len() {
        lo
    } else if is_padding(header[lo], kind) {
        front(header, lo + 1, hi, kind)
    } else {
        lo
    }
}

/// The last index in `[lo, hi]` before the padding at the end of
/// `[lo, hi)`.
pub open spec fn back(header: Seq<u8>, lo: int, hi: int, kind: Padding) -> int
    decreases hi - lo,
{
    if lo < 0 || lo >= hi || hi > header.len() {
        hi
    } else if is_padding(header[hi - 1], kind) {
        back(header, lo, hi - 1, kind)
    } else {
        hi
    }
}

/// `b` in lower case, where it is an ASCII letter.
pub open spec fn lowered(b: u8) -> u8 {
    if 65 <= b <= 90 {
        (b + 32) as u8
    } else {
        b
    }
}

/// Whether the header reads `word` from `at` on, whatever the case of its
/// letters. `word` is in lower case.
pub open spec fn reads_at(header: Seq<u8>, at: int, word: Seq<u8>) -> bool {
    &&& 0 <= at
    &&& at + word.len() <= header.len()
    &&& forall|k: int| 0 <= k < word.len() ==> lowered(#[trigger] header[at + k]) == word[k]
}

/// A part ends at or behind the place where it begins.
pub proof fn lemma_part_end_bounds(header: Seq<u8>, pos: int, separator: u8)
    requires
        0 <= pos <= header.len(),
    ensures
        pos <= part_end(header, pos, separator) <= header.len(),
    decreases header.len() - pos,
{
    if pos < header.len() && header[pos] != separator {
        lemma_part_end_bounds(header, pos + 1, separator);
    }
}

/// Finds the end of the part that begins at `pos`.
pub fn find_part_end(header: &[u8], pos: usize, separator: u8) -> (end: usize)
    requires
        pos <= header@.len(),
    ensures
        end == part_end(header@, pos as int, separator),
        pos <= end <= header@.len(),
{
    let mut at: usize = pos;
    while at < header.len() && header[at] != separator
        invariant
            pos <= at <= header@.len(),
            part_end(header@, at as int, separator) == part_end(header@, pos as int, separator),
        decreases header@.len() - at,
    {
        at += 1;
    }
    at
}

/// Skips the padding at the start of `[lo, hi)`.
pub fn trim_front(header: &[u8], lo: usize, hi: usize, kind: Padding) -> (start: usize)
    requires
        lo <= hi <= header@.len(),
    ensures
        start == front(header@, lo as int, hi as int, kind),
        lo <= start <= hi,
{
    let mut at: usize = lo;
    while at < hi && padding(header[at], kind)
        invariant
            lo <= at <= hi <= header@.len(),
            front(header@, at as int, hi as int, kind) == front(header@, lo as int, hi as int, kind),
        decreases hi - at,
    {
        at += 1;
    }
    at
}

/// Skips the padding at the end of `[lo, hi)`.
pub fn trim_back(header: &[u8], lo: usize, hi: usize, kind: Padding) -> (end: usize)
    requires
        lo <= hi <= header@.len(),
    ensures
        end == back(header@, lo as int, hi as int, kind),
        lo <= end <= hi,
{
    let mut at: usize = hi;
    while lo < at && padding(header[at - 1], kind)
        invariant
            lo <= at <= hi <= header@.len(),
            back(header@, lo as int, at as int, kind) == back(header@, lo as int, hi as int, kind),
        decreases at - lo,
    {
        at -= 1;
    }
    at
}

/// Whether the header reads `word` from `at` on, whatever the case.
pub fn reads(header: &[u8], at: usize, word: &[u8]) -> (same: bool)
    ensures
        same == reads_at(header@, at as int, word@),
{
    if word.len() > header.len() || at > header.len() - word.len() {
        return false;
    }
    let mut k: usize = 0;
    while k < word.len()
        invariant
            k <= word@.len(),
            at + word@.len() <= header@.len() <= usize::MAX,
            forall|m: int| 0 <= m < k ==> lowered(#[trigger] header@[at + m]) == word@[m],
        decreases word@.len() - k,
    {
        let b = header[at + k];
        let low = if 65 <= b && b <= 90 {
            b + 32
        } else {
            b
        };
        if low != word[k] {
            return false;
        }
        k += 1;
    }
    true
}

} // verus!
