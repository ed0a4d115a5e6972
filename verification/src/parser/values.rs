//! Values that extension elements write as text: durations, yes and no,
//! lists of keywords, and points on the globe.

use vstd::prelude::*;
use vstd::utf8::encode_utf8;
use crate::parser::common::{capped, capped_sum};
use crate::text::{
    back, bytes_to_string, decimal_value, find_part_end, front, is_digit, lemma_part_end_bounds,
    parse_number, part_end, reads, reads_at, trim_back, trim_front, utf8_lossy, Padding,
};
use crate::types::extensions::{GeoKind, GeoLocation, GeoLocationView, GeoPoint};

verus! {

/// The number that `text` writes with digits alone.
pub open spec fn plain_number(text: Seq<u8>) -> Option<nat> {
    if text.len() > 0 && text[0] != 43 {
        decimal_value(text)
    } else {
        None
    }
}

/// Reads a number written with digits alone that is `max` at most.
pub fn parse_plain(text: &[u8], max: u64) -> (number: Option<u64>)
    ensures
        number is Some == (plain_number(text@) is Some && plain_number(text@)->0 <= max),
        number is Some ==> number->0 == plain_number(text@)->0,
{
    if text.len() > 0 && text[0] != 43 {
        parse_number(text, max)
    } else {
        None
    }
}

/// The seconds that a clock time `H:M:S`, `M:S` or `S` counts.
pub open spec fn clock_seconds(text: Seq<u8>) -> Option<nat> {
    let first = part_end(text, 0, 58);
    if first >= text.len() {
        plain_number(text)
    } else {
        let rest = text.skip(first + 1);
        let second = part_end(rest, 0, 58);
        if second >= rest.len() {
            match (plain_number(text.take(first)), plain_number(rest)) {
                (Some(m), Some(s)) => Some(m * 60 + s),
                _ => None,
            }
        } else {
            match (
                plain_number(text.take(first)),
                plain_number(rest.take(second)),
                plain_number(rest.skip(second + 1)),
            ) {
                (Some(h), Some(m), Some(s)) => Some(h * 3600 + m * 60 + s),
                _ => None,
            }
        }
    }
}

/// `text` without the white space at its ends.
pub open spec fn unpadded(text: Seq<u8>) -> Seq<u8> {
    let from = front(text, 0, text.len() as int, Padding::Space);
    text.subrange(from, back(text, from, text.len() as int, Padding::Space))
}

/// `text` without the white space at its ends.
pub fn strip(text: &[u8]) -> (inner: &[u8])
    ensures
        inner@ == unpadded(text@),
{
    let from = trim_front(text, 0, text.len(), Padding::Space);
    let to = trim_back(text, from, text.len(), Padding::Space);
    vstd::slice::slice_subrange(text, from, to)
}

/// The seconds that `text` gives as a duration, where they fit in 32 bits.
pub open spec fn duration_seconds(text: Seq<char>) -> Option<u32> {
    match clock_seconds(unpadded(encode_utf8(text))) {
        Some(seconds) => if seconds <= u32::MAX {
            Some(seconds as u32)
        } else {
            None
        },
        None => None,
    }
}

/// Reads a duration: a number of seconds, or a clock time `M:S` or
/// `H:M:S`. White space around it does not count.
pub fn parse_duration(text: &str) -> (seconds: Option<u32>)
    ensures
        seconds == duration_seconds(text@),
{
    let bytes = strip(text.as_bytes());
    let first = find_part_end(bytes, 0, 58);
    let total: u64 = if first >= bytes.len() {
        match parse_plain(bytes, 0xFFFF_FFFF) {
            Some(s) => s,
            None => {
                return None;
            },
        }
    } else {
        let head = vstd::slice::slice_subrange(bytes, 0, first);
        let rest = vstd::slice::slice_subrange(bytes, first + 1, bytes.len());
        assert(head@ =~= bytes@.take(first as int));
        assert(rest@ =~= bytes@.skip(first + 1));
        let second = find_part_end(rest, 0, 58);
        if second >= rest.len() {
            match (parse_plain(head, 0xFFFF_FFFF), parse_plain(rest, 0xFFFF_FFFF)) {
                (Some(m), Some(s)) => m * 60 + s,
                _ => {
                    return None;
                },
            }
        } else {
            let middle = vstd::slice::slice_subrange(rest, 0, second);
            let tail = vstd::slice::slice_subrange(rest, second + 1, rest.len());
            assert(middle@ =~= rest@.take(second as int));
            assert(tail@ =~= rest@.skip(second + 1));
            match (
                parse_plain(head, 0xFFFF_FFFF),
                parse_plain(middle, 0xFFFF_FFFF),
                parse_plain(tail, 0xFFFF_FFFF),
            ) {
                (Some(h), Some(m), Some(s)) => h * 3600 + m * 60 + s,
                _ => {
                    return None;
                },
            }
        }
    };
    if total <= 0xFFFF_FFFF {
        Some(total as u32)
    } else {
        None
    }
}

/// Whether `text` is `word`, whatever the case of its letters. `word` is in
/// lower case.
pub open spec fn is_word(text: Seq<u8>, word: &str) -> bool {
    text.len() == encode_utf8(word@).len() && reads_at(text, 0, encode_utf8(word@))
}

/// Whether `text` is `word`, whatever the case of its letters.
pub fn word_is(text: &[u8], word: &str) -> (same: bool)
    ensures
        same == is_word(text@, word),
{
    let letters = word.as_bytes();
    text.len() == letters.len() && reads(text, 0, letters)
}

/// What `text` says to the question whether something is explicit.
pub open spec fn explicit_flag(text: Seq<char>) -> Option<bool> {
    let word = unpadded(encode_utf8(text));
    if is_word(word, "yes") || is_word(word, "true") || is_word(word, "explicit") {
        Some(true)
    } else if is_word(word, "no") || is_word(word, "false") || is_word(word, "clean") {
        Some(false)
    } else {
        None
    }
}

/// Reads an answer to the question whether something is explicit: `yes`,
/// `true` and `explicit` say that it is, `no`, `false` and `clean` that it
/// is not, in any case; anything else says nothing.
pub fn parse_explicit(text: &str) -> (flag: Option<bool>)
    ensures
        flag == explicit_flag(text@),
{
    let word = strip(text.as_bytes());
    if word_is(word, "yes") || word_is(word, "true") || word_is(word, "explicit") {
        Some(true)
    } else if word_is(word, "no") || word_is(word, "false") || word_is(word, "clean") {
        Some(false)
    } else {
        None
    }
}

/// What `text` says to a question that is answered with yes or no.
pub open spec fn yes_flag(text: Seq<char>) -> Option<bool> {
    let word = unpadded(encode_utf8(text));
    if is_word(word, "yes") || is_word(word, "true") {
        Some(true)
    } else if is_word(word, "no") || is_word(word, "false") {
        Some(false)
    } else {
        None
    }
}

/// Reads `yes` or `true`, `no` or `false`, in any case.
pub fn parse_yes(text: &str) -> (flag: Option<bool>)
    ensures
        flag == yes_flag(text@),
{
    let word = strip(text.as_bytes());
    if word_is(word, "yes") || word_is(word, "true") {
        Some(true)
    } else if word_is(word, "no") || word_is(word, "false") {
        Some(false)
    } else {
        None
    }
}

/// The item that stands in `[lo, hi)` of a list: what is left when the
/// white space at its ends is cut off, if anything is.
pub open spec fn list_item(text: Seq<u8>, lo: int, hi: int) -> Option<Seq<char>> {
    let from = front(text, lo, hi, Padding::Space);
    let to = back(text, from, hi, Padding::Space);
    if from < to {
        Some(utf8_lossy(text.subrange(from, to)))
    } else {
        None
    }
}

/// `so_far` with the items of a comma-separated list from `pos` on, as long
/// as there are fewer than `limit`.
pub open spec fn list_from(text: Seq<u8>, pos: int, so_far: Seq<Seq<char>>, limit: usize) -> Seq<
    Seq<char>,
>
    decreases text.len() - pos,
{
    if pos < 0 || pos > text.len() {
        so_far
    } else {
        let end = part_end(text, pos, 44);
        proof {
            lemma_part_end_bounds(text, pos, 44);
        }
        let next = match list_item(text, pos, end) {
            Some(item) => if so_far.len() < limit {
                so_far.push(item)
            } else {
                so_far
            },
            None => so_far,
        };
        if end < text.len() {
            list_from(text, end + 1, next, limit)
        } else {
            next
        }
    }
}

/// The items of a comma-separated list: at most `limit`, each without the
/// white space around it, empty ones left out.
pub open spec fn list_items(text: Seq<char>, limit: usize) -> Seq<Seq<char>> {
    list_from(encode_utf8(text), 0, Seq::empty(), limit)
}

/// A list that is taken apart has no more items than the limit allows.
pub proof fn lemma_list_from_bound(text: Seq<u8>, pos: int, so_far: Seq<Seq<char>>, limit: usize)
    requires
        so_far.len() <= limit,
    ensures
        list_from(text, pos, so_far, limit).len() <= limit,
    decreases text.len() - pos,
{
    if !(pos < 0 || pos > text.len()) {
        let end = part_end(text, pos, 44);
        lemma_part_end_bounds(text, pos, 44);
        let next = match list_item(text, pos, end) {
            Some(item) => if so_far.len() < limit {
                so_far.push(item)
            } else {
                so_far
            },
            None => so_far,
        };
        if end < text.len() {
            lemma_list_from_bound(text, end + 1, next, limit);
        }
    }
}

/// Takes a comma-separated list apart.
pub fn split_list(text: &str, limit: usize) -> (items: Vec<String>)
    ensures
        items.deep_view() == list_items(text@, limit),
        items@.len() <= limit,
{
    let bytes = text.as_bytes();
    let mut items: Vec<String> = Vec::new();
    let mut pos: usize = 0;
    assert(items.deep_view() =~= Seq::<Seq<char>>::empty());
    loop
        invariant
            pos <= bytes@.len(),
            bytes@ == encode_utf8(text@),
            items@.len() <= limit,
            list_from(bytes@, pos as int, items.deep_view(), limit) == list_items(text@, limit),
        decreases bytes@.len() - pos,
    {
        let end = find_part_end(bytes, pos, 44);
        let from = trim_front(bytes, pos, end, Padding::Space);
        let to = trim_back(bytes, from, end, Padding::Space);
        if from < to && items.len() < limit {
            let ghost before = items.deep_view();
            let item = bytes_to_string(vstd::slice::slice_subrange(bytes, from, to));
            let ghost added = item@;
            items.push(item);
            assert(items.deep_view() =~= before.push(added));
        }
        if end >= bytes.len() {
            return items;
        }
        pos = end + 1;
    }
}

/// `value` with a zero written behind it for each of the six places that
/// `taken` digits have not filled.
pub open spec fn padded(value: nat, taken: nat) -> nat
    decreases 6 - taken,
{
    if taken >= 6 {
        value
    } else {
        padded(value * 10, taken + 1)
    }
}

/// The millionths that the digits from `pos` on write behind a decimal
/// point: the first six count, `taken` of which have been read as `value`.
pub open spec fn fraction_from(text: Seq<u8>, pos: int, taken: nat, value: nat) -> Option<nat>
    decreases text.len() - pos,
{
    if pos < 0 || pos >= text.len() {
        Some(padded(value, taken))
    } else if is_digit(text[pos]) {
        if taken < 6 {
            fraction_from(text, pos + 1, taken + 1, value * 10 + (text[pos] - 48) as nat)
        } else {
            fraction_from(text, pos + 1, taken, value)
        }
    } else {
        None
    }
}

/// The millionths that a sign, a whole part and a fraction make.
pub open spec fn signed_millionths(negative: bool, whole: nat, fraction: Option<nat>) -> Option<
    int,
> {
    match fraction {
        Some(f) => Some(
            if negative {
                -(whole * 1000000 + f)
            } else {
                (whole * 1000000 + f) as int
            },
        ),
        None => None,
    }
}

/// The number that `text` writes, in millionths: an optional sign, digits,
/// and optionally a point and more digits. Digits behind the sixth place
/// are cut off. A number above one thousand is none.
pub open spec fn millionths(text: Seq<u8>) -> Option<int> {
    let signed = text.len() > 0 && (text[0] == 45 || text[0] == 43);
    let body = if signed {
        text.skip(1)
    } else {
        text
    };
    let dot = part_end(body, 0, 46);
    match plain_number(body.take(dot)) {
        Some(whole) => if whole > 1000 {
            None
        } else {
            signed_millionths(
                text[0] == 45,
                whole,
                if dot < body.len() {
                    fraction_from(body, dot + 1, 0, 0)
                } else {
                    Some(0nat)
                },
            )
        },
        None => None,
    }
}

/// What six digits at most can write stays below a million.
pub proof fn lemma_padded_bound(value: nat, taken: nat)
    requires
        taken <= 6,
        value < bound_of(taken),
    ensures
        padded(value, taken) < 1000000,
    decreases 6 - taken,
{
    if taken < 6 {
        lemma_padded_bound(value * 10, taken + 1);
    }
}

/// Zeros behind nothing are nothing.
pub proof fn lemma_padded_zero(taken: nat)
    ensures
        padded(0, taken) == 0,
    decreases 6 - taken,
{
    if taken < 6 {
        lemma_padded_zero(taken + 1);
    }
}

/// One more than the largest number that `taken` digits can write.
pub open spec fn bound_of(taken: nat) -> nat {
    if taken == 0 {
        1
    } else if taken == 1 {
        10
    } else if taken == 2 {
        100
    } else if taken == 3 {
        1000
    } else if taken == 4 {
        10000
    } else if taken == 5 {
        100000
    } else {
        1000000
    }
}

/// Reads a number with an optional sign and an optional fraction, in
/// millionths.
pub fn parse_millionths(text: &[u8]) -> (number: Option<i64>)
    ensures
        number is Some == millionths(text@) is Some,
        number is Some ==> number->0 == millionths(text@)->0,
        number is Some ==> -1001000000 < number->0 < 1001000000,
{
    let signed = text.len() > 0 && (text[0] == 45 || text[0] == 43);
    let negative = text.len() > 0 && text[0] == 45;
    let body = if signed {
        vstd::slice::slice_subrange(text, 1, text.len())
    } else {
        text
    };
    assert(signed ==> body@ =~= text@.skip(1));
    let dot = find_part_end(body, 0, 46);
    let head = vstd::slice::slice_subrange(body, 0, dot);
    assert(head@ =~= body@.take(dot as int));
    let whole: u64 = match parse_plain(head, 1000) {
        Some(w) => w,
        None => {
            return None;
        },
    };
    let mut value: u64 = 0;
    let mut taken: usize = 0;
    let ghost fraction = if dot < body@.len() {
        fraction_from(body@, dot + 1, 0, 0)
    } else {
        Some(0nat)
    };
    assert(millionths(text@) == signed_millionths(negative, whole as nat, fraction));
    if dot < body.len() {
        let mut pos: usize = dot + 1;
        while pos < body.len()
            invariant
                dot < pos <= body@.len(),
                taken <= 6,
                value < bound_of(taken as nat),
                millionths(text@) == signed_millionths(negative, whole as nat, fraction),
                fraction_from(body@, pos as int, taken as nat, value as nat) == fraction,
            decreases body@.len() - pos,
        {
            let b = body[pos];
            if b < 48 || b > 57 {
                return None;
            }
            if taken < 6 {
                value = value * 10 + (b - 48) as u64;
                taken += 1;
            }
            pos += 1;
        }
        assert(fraction == Some(padded(value as nat, taken as nat)));
    } else {
        proof {
            lemma_padded_zero(0);
        }
    }
    let ghost read = value as nat;
    let ghost digits = taken as nat;
    proof {
        lemma_padded_bound(read, digits);
        assert(fraction == Some(padded(read, digits)));
    }
    while taken < 6
        invariant
            taken <= 6,
            value < bound_of(taken as nat),
            padded(value as nat, taken as nat) == padded(read, digits),
        decreases 6 - taken,
    {
        value = value * 10;
        taken += 1;
    }
    assert(value == padded(read, digits));
    let total: i64 = (whole * 1000000 + value) as i64;
    if negative {
        Some(-total)
    } else {
        Some(total)
    }
}

/// Whether `b` stands between two numbers of a list of coordinates.
pub open spec fn is_gap(b: u8) -> bool {
    b == 32 || b == 9 || b == 10 || b == 13 || b == 44
}

/// The index of the first gap at or behind `pos`, or the length of the
/// text where there is none.
pub open spec fn token_end(text: Seq<u8>, pos: int) -> int
    decreases text.len() - pos,
{
    if pos < 0 || pos >= text.len() {
        text.len() as int
    } else if is_gap(text[pos]) {
        pos
    } else {
        token_end(text, pos + 1)
    }
}

/// A token ends behind the place where it begins.
pub proof fn lemma_token_end_bounds(text: Seq<u8>, pos: int)
    requires
        0 <= pos <= text.len(),
    ensures
        pos <= token_end(text, pos) <= text.len(),
        pos < text.len() && !is_gap(text[pos]) ==> pos < token_end(text, pos),
    decreases text.len() - pos,
{
    if pos < text.len() && !is_gap(text[pos]) {
        lemma_token_end_bounds(text, pos + 1);
    }
}

/// `so_far` with the numbers from `pos` on, in millionths; none where one
/// of them is no number, or there are more than `limit`.
pub open spec fn numbers_from(text: Seq<u8>, pos: int, so_far: Seq<i64>, limit: usize) -> Option<
    Seq<i64>,
>
    decreases text.len() - pos,
{
    if pos < 0 || pos >= text.len() {
        Some(so_far)
    } else if is_gap(text[pos]) {
        numbers_from(text, pos + 1, so_far, limit)
    } else {
        let end = token_end(text, pos);
        proof {
            lemma_token_end_bounds(text, pos);
        }
        match millionths(text.subrange(pos, end)) {
            Some(number) => if so_far.len() < limit {
                numbers_from(text, end, so_far.push(number as i64), limit)
            } else {
                None
            },
            None => None,
        }
    }
}

/// Reads a list of numbers that white space or commas keep apart.
pub fn parse_numbers(text: &[u8], limit: usize) -> (numbers: Option<Vec<i64>>)
    ensures
        match numbers {
            Some(list) => numbers_from(text@, 0, Seq::empty(), limit) == Some(list@),
            None => numbers_from(text@, 0, Seq::empty(), limit) is None,
        },
{
    let mut list: Vec<i64> = Vec::new();
    let mut pos: usize = 0;
    while pos < text.len()
        invariant
            pos <= text@.len(),
            numbers_from(text@, pos as int, list@, limit) == numbers_from(
                text@,
                0,
                Seq::empty(),
                limit,
            ),
        decreases text@.len() - pos,
    {
        let b = text[pos];
        if b == 32 || b == 9 || b == 10 || b == 13 || b == 44 {
            pos += 1;
        } else {
            let mut end: usize = pos;
            while end < text.len() && !(text[end] == 32 || text[end] == 9 || text[end] == 10
                || text[end] == 13 || text[end] == 44)
                invariant
                    pos <= end <= text@.len(),
                    token_end(text@, end as int) == token_end(text@, pos as int),
                decreases text@.len() - end,
            {
                end += 1;
            }
            proof {
                lemma_token_end_bounds(text@, pos as int);
            }
            match parse_millionths(vstd::slice::slice_subrange(text, pos, end)) {
                Some(number) => {
                    if list.len() >= limit {
                        return None;
                    }
                    list.push(number);
                },
                None => {
                    return None;
                },
            }
            pos = end;
        }
    }
    Some(list)
}

/// Whether a latitude and a longitude, in millionths of a degree, are on
/// the globe.
pub open spec fn on_globe(latitude: i64, longitude: i64) -> bool {
    -90000000 <= latitude <= 90000000 && -180000000 <= longitude <= 180000000
}

/// `so_far` with the points that the numbers from `pos` on give two by
/// two, latitude first; none where a number is left over or a point is not
/// on the globe.
pub open spec fn points_from(numbers: Seq<i64>, pos: int, so_far: Seq<GeoPoint>) -> Option<
    Seq<GeoPoint>,
>
    decreases numbers.len() - pos,
{
    if pos < 0 || pos >= numbers.len() {
        Some(so_far)
    } else if pos + 1 >= numbers.len() {
        None
    } else if on_globe(numbers[pos], numbers[pos + 1]) {
        points_from(
            numbers,
            pos + 2,
            so_far.push(GeoPoint { latitude: numbers[pos], longitude: numbers[pos + 1] }),
        )
    } else {
        None
    }
}

/// Whether a shape of this kind can have `count` points.
pub open spec fn fits_kind(kind: GeoKind, count: nat) -> bool {
    match kind {
        GeoKind::Point => count == 1,
        GeoKind::Line => count >= 2,
        GeoKind::Polygon => count >= 3,
        GeoKind::Box => count == 2,
    }
}

/// The shape of the given kind that `text` describes: its points as
/// latitude and longitude, in degrees, one after the other. There is no
/// shape where the text holds anything but numbers, an odd count of them, a
/// point off the globe, more than `limit` points, or not as many as the
/// kind needs.
pub open spec fn location_of(kind: GeoKind, text: Seq<char>, limit: usize) -> Option<
    GeoLocationView,
> {
    match numbers_from(encode_utf8(text), 0, Seq::empty(), capped(2 * limit)) {
        Some(numbers) => match points_from(numbers, 0, Seq::empty()) {
            Some(points) => if fits_kind(kind, points.len()) {
                Some(GeoLocationView { geo_type: kind, coordinates: points })
            } else {
                None
            },
            None => None,
        },
        None => None,
    }
}

/// Reads the points of a shape.
pub fn parse_location(kind: GeoKind, text: &str, limit: usize) -> (location: Option<GeoLocation>)
    ensures
        location.deep_view() == location_of(kind, text@, limit),
{
    let numbers = match parse_numbers(text.as_bytes(), capped_sum(limit, limit)) {
        Some(numbers) => numbers,
        None => {
            return None;
        },
    };
    let mut points: Vec<GeoPoint> = Vec::new();
    let mut pos: usize = 0;
    while pos < numbers.len()
        invariant
            pos <= numbers@.len(),
            numbers_from(encode_utf8(text@), 0, Seq::empty(), capped(2 * limit)) == Some(
                numbers@,
            ),
            points_from(numbers@, pos as int, points@) == points_from(
                numbers@,
                0,
                Seq::empty(),
            ),
        decreases numbers@.len() - pos,
    {
        if pos + 1 >= numbers.len() {
            return None;
        }
        let latitude = numbers[pos];
        let longitude = numbers[pos + 1];
        if !(-90000000 <= latitude && latitude <= 90000000 && -180000000 <= longitude
            && longitude <= 180000000) {
            return None;
        }
        points.push(GeoPoint { latitude, longitude });
        pos += 2;
    }
    let enough = match kind {
        GeoKind::Point => points.len() == 1,
        GeoKind::Line => points.len() >= 2,
        GeoKind::Polygon => points.len() >= 3,
        GeoKind::Box => points.len() == 2,
    };
    if enough {
        Some(GeoLocation { geo_type: kind, coordinates: points })
    } else {
        None
    }
}

} // verus!
