//! The namespaces a document declares.

use vstd::prelude::*;
use vstd::utf8::encode_utf8;
use crate::limits::{
    lemma_push_deep_view, limit_exceeded, limit_message, try_push_limited, ParserLimits,
};
use crate::parser::common::{attribute_string, attribute_text, is_name, name_is};
use crate::parser::rss::{set_diagnostic, with_diagnostic};
use crate::text::{bytes_to_string, starts_with_bytes, utf8_lossy};
use crate::types::common::{Namespace, NamespaceView};
use crate::types::feed::{ParsedFeed, ParsedFeedView};
use crate::xml::{XmlAttr, XmlAttrView};

verus! {

/// The namespace that an attribute declares, if it declares one: `xmlns`
/// binds the empty prefix, `xmlns:p` the prefix `p`. An attribute whose
/// value is longer than `max_length` declares nothing.
pub open spec fn declared_namespace(attr: XmlAttrView, max_length: usize) -> Option<
    NamespaceView,
> {
    if attr.value.len() > max_length {
        None
    } else if is_name(attr.key, "xmlns") {
        Some(NamespaceView { prefix: Seq::empty(), uri: attribute_text(attr.value) })
    } else if encode_utf8("xmlns:"@).is_prefix_of(attr.key) {
        Some(
            NamespaceView {
                prefix: utf8_lossy(attr.key.skip(encode_utf8("xmlns:"@).len() as int)),
                uri: attribute_text(attr.value),
            },
        )
    } else {
        None
    }
}

/// The namespace that an attribute declares, if it declares one.
pub fn namespace_of(attr: &XmlAttr, max_length: usize) -> (namespace: Option<Namespace>)
    ensures
        namespace.deep_view() == declared_namespace(attr.deep_view(), max_length),
{
    if attr.value.len() > max_length {
        None
    } else if name_is(attr.key.as_slice(), "xmlns") {
        Some(Namespace { prefix: String::new(), uri: attribute_string(attr.value.as_slice()) })
    } else if starts_with_bytes(attr.key.as_slice(), "xmlns:".as_bytes()) {
        let marker = "xmlns:".as_bytes().len();
        let key = attr.key.as_slice();
        let rest = vstd::slice::slice_subrange(key, marker, key.len());
        assert(rest@ =~= attr.key@.skip(marker as int));
        Some(
            Namespace { prefix: bytes_to_string(rest), uri: attribute_string(attr.value.as_slice()) },
        )
    } else {
        None
    }
}

/// The index of the first binding of `prefix` at or behind `from`.
pub open spec fn binding_of(namespaces: Seq<NamespaceView>, prefix: Seq<char>, from: int)
    -> Option<int>
    decreases namespaces.len() - from,
{
    if from < 0 || from >= namespaces.len() {
        None
    } else if namespaces[from].prefix == prefix {
        Some(from)
    } else {
        binding_of(namespaces, prefix, from + 1)
    }
}

/// What `binding_of` finds is a binding of the prefix, and where it finds
/// none there is none.
pub proof fn lemma_binding_of(namespaces: Seq<NamespaceView>, prefix: Seq<char>, from: int)
    requires
        0 <= from,
    ensures
        match binding_of(namespaces, prefix, from) {
            Some(i) => from <= i < namespaces.len() && namespaces[i].prefix == prefix,
            None => forall|i: int|
                from <= i < namespaces.len() ==> (#[trigger] namespaces[i]).prefix != prefix,
        },
    decreases namespaces.len() - from,
{
    if from < namespaces.len() && namespaces[from].prefix != prefix {
        lemma_binding_of(namespaces, prefix, from + 1);
    }
}

/// Finds the binding of `prefix`.
pub fn find_binding(namespaces: &Vec<Namespace>, prefix: &String) -> (index: Option<usize>)
    ensures
        match index {
            Some(i) => binding_of(namespaces.deep_view(), prefix@, 0) == Some(i as int),
            None => binding_of(namespaces.deep_view(), prefix@, 0) is None,
        },
{
    let mut i: usize = 0;
    while i < namespaces.len()
        invariant
            i <= namespaces.len(),
            binding_of(namespaces.deep_view(), prefix@, i as int) == binding_of(
                namespaces.deep_view(),
                prefix@,
                0,
            ),
        decreases namespaces.len() - i,
    {
        if namespaces[i].prefix == *prefix {
            return Some(i);
        }
        i += 1;
    }
    None
}

/// The feed after a namespace was declared: a prefix that is bound already
/// is bound anew, a new prefix is added while there is room, and where
/// there is none the feed is flagged.
pub open spec fn with_namespace(
    feed: ParsedFeedView,
    namespace: NamespaceView,
    limits: ParserLimits,
) -> ParsedFeedView {
    match binding_of(feed.namespaces, namespace.prefix, 0) {
        Some(i) => ParsedFeedView { namespaces: feed.namespaces.update(i, namespace), ..feed },
        None => if feed.namespaces.len() < limits.max_namespaces {
            ParsedFeedView { namespaces: feed.namespaces.push(namespace), ..feed }
        } else {
            with_diagnostic(feed, limit_message("Namespace", limits.max_namespaces))
        },
    }
}

/// Records a namespace in the feed.
pub fn add_namespace(feed: &mut ParsedFeed, namespace: Namespace, limits: &ParserLimits)
    ensures
        final(feed).deep_view() == with_namespace(
            old(feed).deep_view(),
            namespace.deep_view(),
            *limits,
        ),
{
    proof {
        lemma_binding_of(feed.namespaces.deep_view(), namespace.prefix@, 0);
    }
    match find_binding(&feed.namespaces, &namespace.prefix) {
        Some(i) => {
            let ghost before = feed.namespaces.deep_view();
            let ghost added = namespace.deep_view();
            feed.namespaces.set(i, namespace);
            assert(feed.namespaces.deep_view() =~= before.update(i as int, added));
        },
        None => {
            let ghost before = feed.namespaces;
            let ghost added = namespace;
            if try_push_limited(&mut feed.namespaces, namespace, limits.max_namespaces) {
                proof {
                    lemma_push_deep_view(before, feed.namespaces, added);
                }
            } else {
                set_diagnostic(feed, limit_exceeded("Namespace", limits.max_namespaces));
            }
        },
    }
}

/// The feed after the namespaces that the attributes from `pos` on declare
/// were recorded, one after the other.
pub open spec fn with_namespaces(
    feed: ParsedFeedView,
    attrs: Seq<XmlAttrView>,
    pos: int,
    limits: ParserLimits,
) -> ParsedFeedView
    decreases attrs.len() - pos,
{
    if pos < 0 || pos >= attrs.len() {
        feed
    } else {
        match declared_namespace(attrs[pos], limits.max_attribute_length) {
            Some(namespace) => with_namespaces(
                with_namespace(feed, namespace, limits),
                attrs,
                pos + 1,
                limits,
            ),
            None => with_namespaces(feed, attrs, pos + 1, limits),
        }
    }
}

/// Records the namespaces that the attributes of a start tag declare.
pub fn record_namespaces(feed: &mut ParsedFeed, attrs: &Vec<XmlAttr>, limits: &ParserLimits)
    ensures
        final(feed).deep_view() == with_namespaces(
            old(feed).deep_view(),
            attrs.deep_view(),
            0,
            *limits,
        ),
{
    let mut pos: usize = 0;
    while pos < attrs.len()
        invariant
            pos <= attrs.len(),
            with_namespaces(feed.deep_view(), attrs.deep_view(), pos as int, *limits)
                == with_namespaces(old(feed).deep_view(), attrs.deep_view(), 0, *limits),
        decreases attrs.len() - pos,
    {
        match namespace_of(&attrs[pos], limits.max_attribute_length) {
            Some(namespace) => {
                add_namespace(feed, namespace, limits);
            },
            None => {},
        }
        pos += 1;
    }
}

/// Whether no prefix is bound twice.
pub open spec fn prefixes_are_distinct(namespaces: Seq<NamespaceView>) -> bool {
    forall|i: int, j: int|
        0 <= i < j < namespaces.len() ==> (#[trigger] namespaces[i]).prefix != (
        #[trigger] namespaces[j]).prefix
}

/// Recording a namespace changes nothing but the namespaces and, where
/// there is no room, the flag; it keeps every prefix bound once and the
/// list within its limit.
pub proof fn lemma_with_namespace(
    feed: ParsedFeedView,
    namespace: NamespaceView,
    limits: ParserLimits,
)
    ensures
        ({
            let noted = with_namespace(feed, namespace, limits);
            &&& noted.entries == feed.entries
            &&& noted.feed == feed.feed
            &&& noted.encoding == feed.encoding
            &&& noted.version == feed.version
            &&& feed.bozo ==> noted.bozo
            &&& feed.bozo == feed.bozo_exception is Some ==> noted.bozo
                == noted.bozo_exception is Some
            &&& feed.namespaces.len() <= limits.max_namespaces ==> noted.namespaces.len()
                <= limits.max_namespaces
            &&& prefixes_are_distinct(feed.namespaces) ==> prefixes_are_distinct(
                noted.namespaces,
            )
        }),
{
    lemma_binding_of(feed.namespaces, namespace.prefix, 0);
}

/// Recording the namespaces of a start tag changes nothing but the
/// namespaces and, where there is no room, the flag; it keeps every prefix
/// bound once and the list within its limit.
pub proof fn lemma_with_namespaces(
    feed: ParsedFeedView,
    attrs: Seq<XmlAttrView>,
    pos: int,
    limits: ParserLimits,
)
    ensures
        ({
            let noted = with_namespaces(feed, attrs, pos, limits);
            &&& noted.entries == feed.entries
            &&& noted.feed == feed.feed
            &&& noted.encoding == feed.encoding
            &&& noted.version == feed.version
            &&& feed.bozo ==> noted.bozo
            &&& feed.bozo == feed.bozo_exception is Some ==> noted.bozo
                == noted.bozo_exception is Some
            &&& feed.namespaces.len() <= limits.max_namespaces ==> noted.namespaces.len()
                <= limits.max_namespaces
            &&& prefixes_are_distinct(feed.namespaces) ==> prefixes_are_distinct(
                noted.namespaces,
            )
        }),
    decreases attrs.len() - pos,
{
    if !(pos < 0 || pos >= attrs.len()) {
        match declared_namespace(attrs[pos], limits.max_attribute_length) {
            Some(namespace) => {
                lemma_with_namespace(feed, namespace, limits);
                lemma_with_namespaces(
                    with_namespace(feed, namespace, limits),
                    attrs,
                    pos + 1,
                    limits,
                );
            },
            None => {
                lemma_with_namespaces(feed, attrs, pos + 1, limits);
            },
        }
    }
}

} // verus!
