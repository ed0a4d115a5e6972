//! What every XML format parser needs: finding the end of an element,
//! collecting its text, skipping it, and reading numbers and attributes.

use vstd::prelude::*;
use vstd::utf8::encode_utf8;
use quick_xml::escape::resolve_xml_entity;
use quick_xml::events::BytesRef;
use crate::error::{FeedError, FeedErrorView};
use crate::limits::{LimitError, ParserLimits};
use crate::text::{
    bytes_eq, bytes_to_string, find_part_end, lemma_part_end_bounds, part_end, starts_with_bytes,
    trim_ascii, trimmed, utf8_lossy,
};
use crate::xml::{XmlEvent, XmlEventView};

verus! {

/// Whether `name` is the literal `word`, byte for byte. A name with a
/// prefix is only the word that is written with that prefix.
pub open spec fn is_name(name: Seq<u8>, word: &str) -> bool {
    name == encode_utf8(word@)
}

/// Whether `name` is the literal `word`, byte for byte.
pub fn name_is(name: &[u8], word: &str) -> (same: bool)
    ensures
        same == is_name(name@, word),
{
    bytes_eq(name, word.as_bytes())
}

/// The index of the first colon in `name` at or behind `from`, or the
/// length of the name where there is none.
pub open spec fn colon_index(name: Seq<u8>, from: int) -> int
    decreases name.len() - from,
{
    if from < 0 || from >= name.len() {
        name.len() as int
    } else if name[from] == 58 {
        from
    } else {
        colon_index(name, from + 1)
    }
}

/// The local part of a name: what follows its first colon, or all of it
/// where it has no prefix.
pub open spec fn local_name(name: Seq<u8>) -> Seq<u8> {
    let colon = colon_index(name, 0);
    if colon < name.len() {
        name.skip(colon + 1)
    } else {
        name
    }
}

/// The local part of a name.
pub fn local_part(name: &[u8]) -> (local: &[u8])
    ensures
        local@ == local_name(name@),
{
    let mut at: usize = 0;
    while at < name.len() && name[at] != 58
        invariant
            at <= name@.len(),
            colon_index(name@, at as int) == colon_index(name@, 0),
        decreases name@.len() - at,
    {
        at += 1;
    }
    if at < name.len() {
        let local = vstd::slice::slice_subrange(name, at + 1, name.len());
        assert(local@ =~= name@.skip(at + 1));
        local
    } else {
        name
    }
}

/// The name without the prefix `prefix`, where it has that one; any other
/// name as it is. `prefix` ends with its colon.
pub open spec fn without_prefix(name: Seq<u8>, prefix: &str) -> Seq<u8> {
    if encode_utf8(prefix@).is_prefix_of(name) {
        name.skip(encode_utf8(prefix@).len() as int)
    } else {
        name
    }
}

/// The name without the prefix `prefix`, where it has that one.
pub fn strip_prefix<'a>(name: &'a [u8], prefix: &str) -> (rest: &'a [u8])
    ensures
        rest@ == without_prefix(name@, prefix),
{
    let marker = prefix.as_bytes();
    if starts_with_bytes(name, marker) {
        let rest = vstd::slice::slice_subrange(name, marker.len(), name.len());
        assert(rest@ =~= name@.skip(marker@.len() as int));
        rest
    } else {
        name
    }
}

/// The index of the end tag that closes the element whose content begins at
/// `pos`, looking no further than `hi`; `hi` where the element is not closed
/// before `hi`. `nested` counts the elements opened since `pos` and still
/// open.
pub open spec fn close_index(events: Seq<XmlEventView>, pos: int, hi: int, nested: nat) -> int
    decreases hi - pos,
{
    if pos < 0 || pos >= hi || hi > events.len() {
        hi
    } else {
        match events[pos] {
            XmlEventView::Start(_, _) => close_index(events, pos + 1, hi, nested + 1),
            XmlEventView::End(_) => if nested == 0 {
                pos
            } else {
                close_index(events, pos + 1, hi, (nested - 1) as nat)
            },
            _ => close_index(events, pos + 1, hi, nested),
        }
    }
}

/// Where reading goes on after an element that closes at `close`.
pub open spec fn after_close(close: int, hi: int) -> int {
    if close < hi {
        close + 1
    } else {
        hi
    }
}

/// The end of an element lies between its start and the end of the span.
pub proof fn lemma_close_index_bounds(events: Seq<XmlEventView>, pos: int, hi: int, nested: nat)
    requires
        0 <= pos <= hi <= events.len(),
    ensures
        pos <= close_index(events, pos, hi, nested) <= hi,
    decreases hi - pos,
{
    if pos < hi {
        match events[pos] {
            XmlEventView::Start(_, _) => lemma_close_index_bounds(events, pos + 1, hi, nested + 1),
            XmlEventView::End(_) => if nested != 0 {
                lemma_close_index_bounds(events, pos + 1, hi, (nested - 1) as nat)
            },
            _ => lemma_close_index_bounds(events, pos + 1, hi, nested),
        }
    }
}

/// Finds the end tag that closes the element whose content begins at `pos`.
pub fn find_close(events: &Vec<XmlEvent>, pos: usize, hi: usize) -> (close: usize)
    requires
        pos <= hi <= events.len(),
    ensures
        close == close_index(events.deep_view(), pos as int, hi as int, 0),
        pos <= close <= hi,
{
    let mut at: usize = pos;
    let mut nested: usize = 0;
    proof {
        lemma_close_index_bounds(events.deep_view(), pos as int, hi as int, 0);
    }
    while at < hi
        invariant
            pos <= at <= hi <= events.len(),
            nested <= at - pos,
            close_index(events.deep_view(), at as int, hi as int, nested as nat) == close_index(
                events.deep_view(),
                pos as int,
                hi as int,
                0,
            ),
        decreases hi - at,
    {
        match &events[at] {
            XmlEvent::Start(_, _) => {
                nested += 1;
            },
            XmlEvent::End(_) => {
                if nested == 0 {
                    return at;
                }
                nested -= 1;
            },
            _ => {},
        }
        at += 1;
    }
    hi
}

/// The character that a predefined XML entity stands for.
pub open spec fn predefined_entity(name: Seq<char>) -> Option<Seq<char>> {
    if name == "lt"@ {
        Some("<"@)
    } else if name == "gt"@ {
        Some(">"@)
    } else if name == "amp"@ {
        Some("&"@)
    } else if name == "apos"@ {
        Some("'"@)
    } else if name == "quot"@ {
        Some("\""@)
    } else {
        None
    }
}

/// The character that a numeric character reference such as `#60` or `#x3C`
/// stands for, as a text of one character; `None` where `name` is no such
/// reference or names no character.
pub uninterp spec fn char_reference(name: Seq<char>) -> Option<Seq<char>>;

/// `quick_xml::escape::resolve_xml_entity`.
///
/// Trusted: the five predefined entities resolve to their characters and
/// nothing else resolves.
#[verifier::external_body]
fn xml_entity(name: &str) -> (text: Option<&'static str>)
    ensures
        text is Some == predefined_entity(name@) is Some,
        text is Some ==> text->0@ == predefined_entity(name@)->0,
{
    resolve_xml_entity(name)
}

/// `quick_xml::events::BytesRef::resolve_char_ref` on a reference with the
/// given name, with the character as a string.
///
/// Trusted: the outcome is a function of the name.
#[verifier::external_body]
fn resolve_char_ref(name: &str) -> (text: Option<String>)
    ensures
        text is Some == char_reference(name@) is Some,
        text is Some ==> text->0@ == char_reference(name@)->0,
{
    BytesRef::new(name).resolve_char_ref().ok().flatten().map(String::from)
}

/// The text that the reference `&name;` stands for: the character of a
/// predefined entity or of a numeric reference, and the reference itself
/// where it is neither.
pub open spec fn reference_text(name: Seq<u8>) -> Seq<char> {
    let text = utf8_lossy(name);
    match predefined_entity(text) {
        Some(c) => c,
        None => match char_reference(text) {
            Some(c) => c,
            None => "&"@ + text + ";"@,
        },
    }
}

/// Resolves the reference `&name;`.
pub fn resolve_reference(name: &[u8]) -> (resolved: String)
    ensures
        resolved@ == reference_text(name@),
{
    let text = bytes_to_string(name);
    match xml_entity(text.as_str()) {
        Some(c) => c.to_owned(),
        None => match resolve_char_ref(text.as_str()) {
            Some(c) => c,
            None => {
                let mut verbatim = String::from_str("&");
                verbatim.append(text.as_str());
                verbatim.append(";");
                verbatim
            },
        },
    }
}

/// `so_far` with the text of an attribute value from `pos` on: its
/// references resolved, everything else decoded as it is. An ampersand
/// that no semicolon follows stands for itself.
pub open spec fn unescaped_from(value: Seq<u8>, pos: int, so_far: Seq<char>) -> Seq<char>
    decreases value.len() - pos,
{
    if pos < 0 || pos >= value.len() {
        so_far
    } else {
        let amp = part_end(value, pos, 38);
        proof {
            lemma_part_end_bounds(value, pos, 38);
        }
        let plain = so_far + utf8_lossy(value.subrange(pos, amp));
        if amp >= value.len() {
            plain
        } else {
            let semi = part_end(value, amp + 1, 59);
            proof {
                lemma_part_end_bounds(value, amp + 1, 59);
            }
            if semi >= value.len() {
                plain + utf8_lossy(value.subrange(amp, value.len() as int))
            } else {
                unescaped_from(
                    value,
                    semi + 1,
                    plain + reference_text(value.subrange(amp + 1, semi)),
                )
            }
        }
    }
}

/// The text of an attribute value, with its references resolved.
pub open spec fn attribute_text(value: Seq<u8>) -> Seq<char> {
    unescaped_from(value, 0, Seq::empty())
}

/// Decodes an attribute value and resolves the references in it.
pub fn attribute_string(value: &[u8]) -> (text: String)
    ensures
        text@ == attribute_text(value@),
{
    let mut text = String::new();
    let mut pos: usize = 0;
    while pos < value.len()
        invariant
            pos <= value@.len(),
            unescaped_from(value@, pos as int, text@) == attribute_text(value@),
        decreases value@.len() - pos,
    {
        let amp = find_part_end(value, pos, 38);
        text.append(bytes_to_string(vstd::slice::slice_subrange(value, pos, amp)).as_str());
        if amp >= value.len() {
            return text;
        }
        let semi = find_part_end(value, amp + 1, 59);
        if semi >= value.len() {
            text.append(
                bytes_to_string(vstd::slice::slice_subrange(value, amp, value.len())).as_str(),
            );
            return text;
        }
        text.append(
            resolve_reference(vstd::slice::slice_subrange(value, amp + 1, semi)).as_str(),
        );
        pos = semi + 1;
    }
    text
}

/// What one text node contributes: its text, or nothing where it is longer
/// than the limit.
pub open spec fn node_text(bytes: Seq<u8>, max_text_length: usize) -> Seq<char> {
    if bytes.len() > max_text_length {
        Seq::empty()
    } else {
        utf8_lossy(bytes)
    }
}

/// The text of the events in `[pos, hi)` appended to `so_far`: character
/// data and CDATA alike, references resolved, markup passed over. The first
/// tokenizer error in the span is the result instead.
pub open spec fn span_text_from(
    events: Seq<XmlEventView>,
    pos: int,
    hi: int,
    so_far: Seq<char>,
    max_text_length: usize,
) -> Result<Seq<char>, FeedErrorView>
    decreases hi - pos,
{
    if pos < 0 || pos >= hi || hi > events.len() {
        Ok(so_far)
    } else {
        match events[pos] {
            XmlEventView::Text(bytes) => span_text_from(
                events,
                pos + 1,
                hi,
                so_far + node_text(bytes, max_text_length),
                max_text_length,
            ),
            XmlEventView::CData(bytes) => span_text_from(
                events,
                pos + 1,
                hi,
                so_far + node_text(bytes, max_text_length),
                max_text_length,
            ),
            XmlEventView::Reference(name) => span_text_from(
                events,
                pos + 1,
                hi,
                so_far + reference_text(name),
                max_text_length,
            ),
            XmlEventView::Error(message) => Err(FeedErrorView::XmlError(message)),
            _ => span_text_from(events, pos + 1, hi, so_far, max_text_length),
        }
    }
}

/// The text content of the events in `[lo, hi)`: the text of all of them,
/// without the white space at its ends.
pub open spec fn span_text(events: Seq<XmlEventView>, lo: int, hi: int, max_text_length: usize)
    -> Result<Seq<char>, FeedErrorView> {
    match span_text_from(events, lo, hi, Seq::empty(), max_text_length) {
        Ok(text) => Ok(trimmed(text)),
        Err(e) => Err(e),
    }
}

/// The same event with a CDATA section taken as character data.
pub open spec fn as_character_data(event: XmlEventView) -> XmlEventView {
    match event {
        XmlEventView::CData(bytes) => XmlEventView::Text(bytes),
        _ => event,
    }
}

/// A CDATA section reads as the character data it holds: the text of a
/// span is the same whether its text nodes are CDATA sections or not.
pub proof fn lemma_cdata_reads_as_character_data(
    events: Seq<XmlEventView>,
    pos: int,
    hi: int,
    so_far: Seq<char>,
    max_text_length: usize,
)
    ensures
        span_text_from(events.map_values(|e: XmlEventView| as_character_data(e)), pos, hi, so_far,
            max_text_length) == span_text_from(events, pos, hi, so_far, max_text_length),
        so_far.len() == 0 ==> span_text(
            events.map_values(|e: XmlEventView| as_character_data(e)),
            pos,
            hi,
            max_text_length,
        ) == span_text(events, pos, hi, max_text_length),
    decreases hi - pos,
{
    let plain = events.map_values(|e: XmlEventView| as_character_data(e));
    if !(pos < 0 || pos >= hi || hi > events.len()) {
        assert(plain[pos] == as_character_data(events[pos]));
        match events[pos] {
            XmlEventView::Text(bytes) => lemma_cdata_reads_as_character_data(
                events,
                pos + 1,
                hi,
                so_far + node_text(bytes, max_text_length),
                max_text_length,
            ),
            XmlEventView::CData(bytes) => lemma_cdata_reads_as_character_data(
                events,
                pos + 1,
                hi,
                so_far + node_text(bytes, max_text_length),
                max_text_length,
            ),
            XmlEventView::Reference(name) => lemma_cdata_reads_as_character_data(
                events,
                pos + 1,
                hi,
                so_far + reference_text(name),
                max_text_length,
            ),
            XmlEventView::Error(_) => {},
            _ => lemma_cdata_reads_as_character_data(events, pos + 1, hi, so_far, max_text_length),
        }
    }
}

/// An element that holds one CDATA section and nothing else has the
/// decoded content of that section as its text, character for character
/// but for white space at its ends.
pub proof fn lemma_cdata_is_kept_verbatim(bytes: Seq<u8>, max_text_length: usize)
    requires
        bytes.len() <= max_text_length,
    ensures
        span_text(seq![XmlEventView::CData(bytes)], 0, 1, max_text_length) == Ok::<
            Seq<char>,
            FeedErrorView,
        >(trimmed(utf8_lossy(bytes))),
{
    let events = seq![XmlEventView::CData(bytes)];
    assert(Seq::<char>::empty() + node_text(bytes, max_text_length) =~= utf8_lossy(bytes));
    assert(span_text_from(events, 1, 1, utf8_lossy(bytes), max_text_length) == Ok::<
        Seq<char>,
        FeedErrorView,
    >(utf8_lossy(bytes)));
}

/// The value of a result whose parts are strings.
pub open spec fn text_result(r: Result<String, FeedError>) -> Result<Seq<char>, FeedErrorView> {
    match r {
        Ok(s) => Ok(s@),
        Err(e) => Err(e.deep_view()),
    }
}

/// The value of a result without a payload.
pub open spec fn unit_result(r: Result<(), FeedError>) -> Result<(), FeedErrorView> {
    match r {
        Ok(_) => Ok(()),
        Err(e) => Err(e.deep_view()),
    }
}

/// Collects the text content of the events in `[lo, hi)`.
///
/// Character data and CDATA sections are decoded and joined in document
/// order, references are resolved, and a text node longer than
/// `max_text_length` is left out. The white space at the ends of the
/// result is cut off. A tokenizer error inside the span is returned as the
/// error.
pub fn read_text(events: &Vec<XmlEvent>, lo: usize, hi: usize, limits: &ParserLimits) -> (text:
    Result<String, FeedError>)
    requires
        lo <= hi <= events.len(),
    ensures
        text_result(text) == span_text(
            events.deep_view(),
            lo as int,
            hi as int,
            limits.max_text_length,
        ),
{
    let mut text = String::new();
    let mut pos: usize = lo;
    while pos < hi
        invariant
            lo <= pos <= hi <= events.len(),
            span_text_from(
                events.deep_view(),
                pos as int,
                hi as int,
                text@,
                limits.max_text_length,
            ) == span_text_from(
                events.deep_view(),
                lo as int,
                hi as int,
                Seq::empty(),
                limits.max_text_length,
            ),
        decreases hi - pos,
    {
        match &events[pos] {
            XmlEvent::Text(bytes) => {
                if bytes.len() <= limits.max_text_length {
                    text.append(bytes_to_string(bytes.as_slice()).as_str());
                } else {
                    assert(text@ + Seq::<char>::empty() =~= text@);
                }
            },
            XmlEvent::CData(bytes) => {
                if bytes.len() <= limits.max_text_length {
                    text.append(bytes_to_string(bytes.as_slice()).as_str());
                } else {
                    assert(text@ + Seq::<char>::empty() =~= text@);
                }
            },
            XmlEvent::Reference(name) => {
                text.append(resolve_reference(name.as_slice()).as_str());
            },
            XmlEvent::Error(message) => {
                return Err(FeedError::XmlError(message.clone()));
            },
            _ => {},
        }
        pos += 1;
    }
    Ok(trim_ascii(text.as_str()).to_owned())
}

/// `n` as a machine number, or the largest one where it does not fit.
pub open spec fn capped(n: int) -> usize {
    if n > usize::MAX {
        usize::MAX
    } else if n < 0 {
        0
    } else {
        n as usize
    }
}

/// The sum of two machine numbers, or the largest one where it does not fit.
pub fn capped_sum(a: usize, b: usize) -> (sum: usize)
    ensures
        sum == capped(a + b),
{
    if a <= usize::MAX - b {
        a + b
    } else {
        usize::MAX
    }
}

/// The error for an element that sits at `depth`, deeper than the limit
/// allows.
pub open spec fn too_deep(depth: int, max: usize) -> FeedErrorView {
    FeedErrorView::InvalidFormat(LimitError::NestingTooDeep { depth: capped(depth), max }.message())
}

/// The error for an element that sits deeper than the limit allows.
pub fn nesting_error(depth: usize, max: usize) -> (e: FeedError)
    ensures
        e.deep_view() == too_deep(depth as int, max),
{
    FeedError::InvalidFormat(LimitError::NestingTooDeep { depth, max }.to_string())
}

/// Passing over the events in `[pos, hi)`, which lie `nested` elements
/// below an element at `depth`: an error where a start tag goes deeper than
/// the limit allows, and where the tokenizer reported one.
pub open spec fn span_skip_from(
    events: Seq<XmlEventView>,
    pos: int,
    hi: int,
    nested: nat,
    depth: usize,
    max_nesting_depth: usize,
) -> Result<(), FeedErrorView>
    decreases hi - pos,
{
    if pos < 0 || pos >= hi || hi > events.len() {
        Ok(())
    } else {
        match events[pos] {
            XmlEventView::Start(_, _) => if depth + nested + 1 > max_nesting_depth {
                Err(too_deep(depth + nested + 1, max_nesting_depth))
            } else {
                span_skip_from(events, pos + 1, hi, nested + 1, depth, max_nesting_depth)
            },
            XmlEventView::End(_) => span_skip_from(
                events,
                pos + 1,
                hi,
                if nested == 0 {
                    0
                } else {
                    (nested - 1) as nat
                },
                depth,
                max_nesting_depth,
            ),
            XmlEventView::Error(message) => Err(FeedErrorView::XmlError(message)),
            _ => span_skip_from(events, pos + 1, hi, nested, depth, max_nesting_depth),
        }
    }
}

/// Passing over the content `[lo, hi)` of an element at `depth`.
pub open spec fn span_skip(
    events: Seq<XmlEventView>,
    lo: int,
    hi: int,
    depth: usize,
    max_nesting_depth: usize,
) -> Result<(), FeedErrorView> {
    span_skip_from(events, lo, hi, 0, depth, max_nesting_depth)
}

/// Passes over the content `[lo, hi)` of an element at `depth` that the
/// parser has no use for.
///
/// The content is still held to the nesting limit: a start tag deeper than
/// `max_nesting_depth` is an error, and so is a tokenizer error.
pub fn skip_element(
    events: &Vec<XmlEvent>,
    lo: usize,
    hi: usize,
    limits: &ParserLimits,
    depth: usize,
) -> (skipped: Result<(), FeedError>)
    requires
        lo <= hi <= events.len(),
    ensures
        unit_result(skipped) == span_skip(
            events.deep_view(),
            lo as int,
            hi as int,
            depth,
            limits.max_nesting_depth,
        ),
{
    let mut pos: usize = lo;
    let mut nested: usize = 0;
    while pos < hi
        invariant
            lo <= pos <= hi <= events.len(),
            nested <= pos - lo,
            depth + nested <= limits.max_nesting_depth || nested == 0,
            span_skip_from(
                events.deep_view(),
                pos as int,
                hi as int,
                nested as nat,
                depth,
                limits.max_nesting_depth,
            ) == span_skip(
                events.deep_view(),
                lo as int,
                hi as int,
                depth,
                limits.max_nesting_depth,
            ),
        decreases hi - pos,
    {
        match &events[pos] {
            XmlEvent::Start(_, _) => {
                if depth >= limits.max_nesting_depth || nested >= limits.max_nesting_depth - depth {
                    return Err(
                        nesting_error(
                            capped_sum(depth, nested + 1),
                            limits.max_nesting_depth,
                        ),
                    );
                }
                nested += 1;
            },
            XmlEvent::End(_) => {
                if nested > 0 {
                    nested -= 1;
                }
            },
            XmlEvent::Error(message) => {
                return Err(FeedError::XmlError(message.clone()));
            },
            _ => {},
        }
        pos += 1;
    }
    Ok(())
}

} // verus!
