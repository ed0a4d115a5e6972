//! Telling the formats apart without parsing the document.

use vstd::prelude::*;
use vstd::utf8::encode_utf8;
use crate::parser::common::{is_name, local_name, local_part, name_is};
use crate::text::{bytes_eq, starts_with_bytes};
use crate::types::common::{attr_value, find_attr};
use crate::types::version::FeedVersion;
use crate::xml::{document_events, first_element, root_element, XmlAttr, XmlAttrView, XmlEvent,
    XmlEventView};

verus! {

/// Whether `b` is white space between the tokens of a document.
pub open spec fn is_blank(b: u8) -> bool {
    b == 32 || b == 9 || b == 10 || b == 13
}

/// The index of the first byte from `pos` on that is not white space.
pub open spec fn first_content(data: Seq<u8>, pos: int) -> int
    decreases data.len() - pos,
{
    if pos < 0 || pos >= data.len() {
        pos
    } else if is_blank(data[pos]) {
        first_content(data, pos + 1)
    } else {
        pos
    }
}

/// Whether `data` begins with a UTF-8 byte order mark.
pub open spec fn has_bom(data: Seq<u8>) -> bool {
    data.len() >= 3 && data[0] == 0xEF && data[1] == 0xBB && data[2] == 0xBF
}

/// Whether the first thing in `data`, behind a byte order mark and white
/// space, is the opening brace of a JSON object.
pub open spec fn opens_json(data: Seq<u8>) -> bool {
    let at = first_content(
        data,
        if has_bom(data) {
            3
        } else {
            0
        },
    );
    at < data.len() && data[at] == 123
}

/// Whether the first thing in `data` is the opening brace of a JSON object.
pub fn looks_like_json(data: &[u8]) -> (json: bool)
    ensures
        json == opens_json(data@),
{
    let start: usize = if data.len() >= 3 && data[0] == 0xEF && data[1] == 0xBB && data[2] == 0xBF {
        3
    } else {
        0
    };
    let mut pos: usize = start;
    while pos < data.len() && (data[pos] == 32 || data[pos] == 9 || data[pos] == 10 || data[pos]
        == 13)
        invariant
            start <= pos <= data@.len(),
            first_content(data@, pos as int) == first_content(data@, start as int),
        decreases data@.len() - pos,
    {
        pos += 1;
    }
    pos < data.len() && data[pos] == 123
}

/// Whether `needle` occurs in `data`.
pub open spec fn occurs_in(data: Seq<u8>, needle: Seq<u8>) -> bool {
    exists|i: int| 0 <= i <= data.len() - needle.len() && #[trigger] data.subrange(
        i,
        i + needle.len(),
    ) == needle
}

/// Whether `needle` occurs in `data`.
pub fn contains_bytes(data: &[u8], needle: &[u8]) -> (found: bool)
    ensures
        found == occurs_in(data@, needle@),
{
    if needle.len() > data.len() {
        return false;
    }
    let last: usize = data.len() - needle.len();
    let mut i: usize = 0;
    while i <= last
        invariant
            needle@.len() <= data@.len() <= usize::MAX,
            last == data@.len() - needle@.len(),
            i <= last + 1,
            forall|j: int| 0 <= j < i ==> #[trigger] data@.subrange(j, j + needle@.len()) != needle@,
        decreases last + 1 - i,
    {
        let mut k: usize = 0;
        while k < needle.len() && data[i + k] == needle[k]
            invariant
                i <= last,
                needle@.len() <= data@.len() <= usize::MAX,
                last == data@.len() - needle@.len(),
                k <= needle@.len(),
                forall|m: int| 0 <= m < k ==> data@[i + m] == needle@[m],
            decreases needle@.len() - k,
        {
            k += 1;
        }
        if k == needle.len() {
            assert(data@.subrange(i as int, i + needle@.len()) =~= needle@);
            return true;
        }
        assert(data@.subrange(i as int, i + needle@.len())[k as int] != needle@[k as int]);
        i += 1;
    }
    false
}

/// The version of JSON Feed that `data` names, with the slashes of the
/// version URL written plainly or escaped.
pub open spec fn json_version(data: Seq<u8>) -> FeedVersion {
    if occurs_in(data, encode_utf8("jsonfeed.org/version/1.1"@)) || occurs_in(
        data,
        encode_utf8("jsonfeed.org\\/version\\/1.1"@),
    ) {
        FeedVersion::JsonFeed11
    } else if occurs_in(data, encode_utf8("jsonfeed.org/version/1"@)) || occurs_in(
        data,
        encode_utf8("jsonfeed.org\\/version\\/1"@),
    ) {
        FeedVersion::JsonFeed10
    } else {
        FeedVersion::Unknown
    }
}

/// The format that a root element with the given name and attributes
/// announces. The prefix of the name does not count.
pub open spec fn xml_version(name: Seq<u8>, attrs: Seq<XmlAttrView>) -> FeedVersion {
    let name = local_name(name);
    if is_name(name, "rss") {
        match attr_value(attrs, "version", "version", usize::MAX) {
            Some(version) => if encode_utf8("0.9"@).is_prefix_of(version) {
                FeedVersion::Rss09x
            } else {
                FeedVersion::Rss20
            },
            None => FeedVersion::Rss20,
        }
    } else if is_name(name, "RDF") {
        FeedVersion::Rss10
    } else if is_name(name, "feed") {
        if attr_value(attrs, "version", "version", usize::MAX) == Some(encode_utf8("0.3"@))
            || attr_value(attrs, "xmlns", "xmlns", usize::MAX) == Some(
            encode_utf8("http://purl.org/atom/ns#"@),
        ) {
            FeedVersion::Atom03
        } else {
            FeedVersion::Atom10
        }
    } else {
        FeedVersion::Unknown
    }
}

/// The format that a root element announces.
pub fn version_of_root(name: &[u8], attrs: &Vec<XmlAttr>) -> (version: FeedVersion)
    ensures
        version == xml_version(name@, attrs.deep_view()),
{
    let name = local_part(name);
    if name_is(name, "rss") {
        match find_attr(attrs, "version", "version", usize::MAX) {
            Some(version) => if starts_with_bytes(version.as_slice(), "0.9".as_bytes()) {
                FeedVersion::Rss09x
            } else {
                FeedVersion::Rss20
            },
            None => FeedVersion::Rss20,
        }
    } else if name_is(name, "RDF") {
        FeedVersion::Rss10
    } else if name_is(name, "feed") {
        let old_version = match find_attr(attrs, "version", "version", usize::MAX) {
            Some(version) => bytes_eq(version.as_slice(), "0.3".as_bytes()),
            None => false,
        };
        let old_namespace = match find_attr(attrs, "xmlns", "xmlns", usize::MAX) {
            Some(uri) => bytes_eq(uri.as_slice(), "http://purl.org/atom/ns#".as_bytes()),
            None => false,
        };
        if old_version || old_namespace {
            FeedVersion::Atom03
        } else {
            FeedVersion::Atom10
        }
    } else {
        FeedVersion::Unknown
    }
}

/// The format that a document with the given first element has.
pub open spec fn version_of_element(root: Option<XmlEventView>) -> FeedVersion {
    match root {
        Some(XmlEventView::Start(name, attrs)) => xml_version(name, attrs),
        _ => FeedVersion::Unknown,
    }
}

/// What `detect_format` returns for `data`.
#[verifier::opaque]
pub open spec fn detected_format(data: Seq<u8>) -> FeedVersion {
    if opens_json(data) {
        json_version(data)
    } else {
        version_of_element(first_element(document_events(data), 0))
    }
}

/// Tells the format of a document from its first tokens.
///
/// A document that opens with a brace is a JSON Feed of the version it
/// names, or of no known format where it names none. Any other document is read as XML up to its root element: `rss`
/// with its `version`, `RDF`, or `feed` with its namespace decide. Where
/// neither applies, as for empty or binary input, the format is `Unknown`.
pub fn detect_format(data: &[u8]) -> (version: FeedVersion)
    ensures
        version == detected_format(data@),
{
    proof {
        reveal(detected_format);
    }
    if looks_like_json(data) {
        if contains_bytes(data, "jsonfeed.org/version/1.1".as_bytes()) || contains_bytes(
            data,
            "jsonfeed.org\\/version\\/1.1".as_bytes(),
        ) {
            FeedVersion::JsonFeed11
        } else if contains_bytes(data, "jsonfeed.org/version/1".as_bytes()) || contains_bytes(
            data,
            "jsonfeed.org\\/version\\/1".as_bytes(),
        ) {
            FeedVersion::JsonFeed10
        } else {
            FeedVersion::Unknown
        }
    } else {
        match root_element(data) {
            Some(XmlEvent::Start(name, attrs)) => version_of_root(name.as_slice(), &attrs),
            _ => FeedVersion::Unknown,
        }
    }
}

} // verus!
