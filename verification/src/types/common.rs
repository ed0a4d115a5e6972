//! The small records that feeds and entries are made of.

use vstd::prelude::*;
use crate::parser::common::{attribute_string, attribute_text, is_name, name_is};
use crate::text::{number_within, parse_u64};
use crate::xml::{XmlAttr, XmlAttrView};

verus! {

/// The value of the last attribute in `attrs` that is named `key` or
/// `alias` and whose value is no longer than `max_length`.
pub open spec fn attr_value(
    attrs: Seq<XmlAttrView>,
    key: &str,
    alias: &str,
    max_length: usize,
) -> Option<Seq<u8>>
    decreases attrs.len(),
{
    if attrs.len() == 0 {
        None
    } else {
        let last = attrs.last();
        if (is_name(last.key, key) || is_name(last.key, alias)) && last.value.len() <= max_length {
            Some(last.value)
        } else {
            attr_value(attrs.drop_last(), key, alias, max_length)
        }
    }
}

/// The text of the attribute `key`, if it is there: its value decoded,
/// with the references in it resolved.
pub open spec fn attr_text(attrs: Seq<XmlAttrView>, key: &str, max_length: usize) -> Option<
    Seq<char>,
> {
    match attr_value(attrs, key, key, max_length) {
        Some(value) => Some(attribute_text(value)),
        None => None,
    }
}

/// The number that the attribute `key` writes, if it is there and a number.
pub open spec fn attr_number(attrs: Seq<XmlAttrView>, key: &str, max_length: usize) -> Option<
    u64,
> {
    match attr_value(attrs, key, key, max_length) {
        Some(value) => match number_within(value, u64::MAX as nat) {
            Some(n) => Some(n as u64),
            None => None,
        },
        None => None,
    }
}

/// Looks up an attribute by name; of several the last one counts, and one
/// whose value is longer than `max_length` does not count at all.
pub fn find_attr<'a>(attrs: &'a Vec<XmlAttr>, key: &str, alias: &str, max_length: usize) -> (value:
    Option<&'a Vec<u8>>)
    ensures
        value is Some == attr_value(attrs.deep_view(), key, alias, max_length) is Some,
        value is Some ==> value->0@ == attr_value(attrs.deep_view(), key, alias, max_length)->0,
{
    let mut n: usize = attrs.len();
    assert(attrs.deep_view().take(n as int) =~= attrs.deep_view());
    while n > 0
        invariant
            n <= attrs.len(),
            attr_value(attrs.deep_view().take(n as int), key, alias, max_length) == attr_value(
                attrs.deep_view(),
                key,
                alias,
                max_length,
            ),
        decreases n,
    {
        let attr = &attrs[n - 1];
        proof {
            let part = attrs.deep_view().take(n as int);
            assert(part.last() == attr.deep_view());
            assert(part.drop_last() =~= attrs.deep_view().take(n - 1));
        }
        if (name_is(attr.key.as_slice(), key) || name_is(attr.key.as_slice(), alias))
            && attr.value.len() <= max_length {
            return Some(&attr.value);
        }
        n -= 1;
    }
    None
}

/// Looks up an attribute by name and decodes its value.
pub fn find_text(attrs: &Vec<XmlAttr>, key: &str, max_length: usize) -> (text: Option<String>)
    ensures
        text.deep_view() == attr_text(attrs.deep_view(), key, max_length),
{
    match find_attr(attrs, key, key, max_length) {
        Some(value) => Some(attribute_string(value.as_slice())),
        None => None,
    }
}

/// Looks up an attribute by name and reads its value as a number.
pub fn find_number(attrs: &Vec<XmlAttr>, key: &str, max_length: usize) -> (number: Option<u64>)
    ensures
        number == attr_number(attrs.deep_view(), key, max_length),
{
    match find_attr(attrs, key, key, max_length) {
        Some(value) => parse_u64(value.as_slice()),
        None => None,
    }
}

/// A link of a feed or an entry.
#[derive(Debug, Clone)]
pub struct Link {
    /// Where the link points.
    pub href: String,
    /// How the target relates to the feed or entry, such as `alternate`, `enclosure` or `self`.
    pub rel: Option<String>,
    /// MIME type of the target.
    pub link_type: Option<String>,
    /// Title for human readers.
    pub title: Option<String>,
    /// Size of the target in bytes.
    pub length: Option<u64>,
    /// Language of the target.
    pub hreflang: Option<String>,
}

/// The mathematical value of a [`Link`].
pub struct LinkView {
    pub href: Seq<char>,
    pub rel: Option<Seq<char>>,
    pub link_type: Option<Seq<char>>,
    pub title: Option<Seq<char>>,
    pub length: Option<u64>,
    pub hreflang: Option<Seq<char>>,
}

impl DeepView for Link {
    type V = LinkView;

    open spec fn deep_view(&self) -> LinkView {
        LinkView {
            href: self.href@,
            rel: self.rel.deep_view(),
            link_type: self.link_type.deep_view(),
            title: self.title.deep_view(),
            length: self.length,
            hreflang: self.hreflang.deep_view(),
        }
    }
}

impl LinkView {
    /// A link without a target.
    pub open spec fn empty() -> LinkView {
        LinkView {
            href: Seq::empty(),
            rel: None,
            link_type: None,
            title: None,
            length: None,
            hreflang: None,
        }
    }
}

impl Default for Link {
    fn default() -> (value: Link)
        ensures
            value.deep_view() == LinkView::empty(),
    {
        let value = Link {
            href: String::new(),
            rel: None,
            link_type: None,
            title: None,
            length: None,
            hreflang: None,
        };
        value
    }
}

/// An author, contributor or publisher.
#[derive(Debug, Clone)]
pub struct Person {
    /// The name.
    pub name: Option<String>,
    /// The e-mail address.
    pub email: Option<String>,
    /// A page about the person.
    pub uri: Option<String>,
}

/// The mathematical value of a [`Person`].
pub struct PersonView {
    pub name: Option<Seq<char>>,
    pub email: Option<Seq<char>>,
    pub uri: Option<Seq<char>>,
}

impl DeepView for Person {
    type V = PersonView;

    open spec fn deep_view(&self) -> PersonView {
        PersonView {
            name: self.name.deep_view(),
            email: self.email.deep_view(),
            uri: self.uri.deep_view(),
        }
    }
}

impl PersonView {
    /// A person of whom nothing is known.
    pub open spec fn empty() -> PersonView {
        PersonView {
            name: None,
            email: None,
            uri: None,
        }
    }
}

impl Default for Person {
    fn default() -> (value: Person)
        ensures
            value.deep_view() == PersonView::empty(),
    {
        let value = Person {
            name: None,
            email: None,
            uri: None,
        };
        value
    }
}

/// A tag or category.
#[derive(Debug, Clone)]
pub struct Tag {
    /// The category itself.
    pub term: String,
    /// The scheme or domain the term belongs to.
    pub scheme: Option<String>,
    /// Label for human readers.
    pub label: Option<String>,
}

/// The mathematical value of a [`Tag`].
pub struct TagView {
    pub term: Seq<char>,
    pub scheme: Option<Seq<char>>,
    pub label: Option<Seq<char>>,
}

impl DeepView for Tag {
    type V = TagView;

    open spec fn deep_view(&self) -> TagView {
        TagView {
            term: self.term@,
            scheme: self.scheme.deep_view(),
            label: self.label.deep_view(),
        }
    }
}

/// The image of a feed.
#[derive(Debug, Clone)]
pub struct Image {
    /// Where the image is.
    pub url: String,
    /// Title of the image.
    pub title: Option<String>,
    /// Where a click on the image leads.
    pub link: Option<String>,
    /// Width in pixels.
    pub width: Option<u32>,
    /// Height in pixels.
    pub height: Option<u32>,
    /// Description of the image.
    pub description: Option<String>,
}

/// The mathematical value of an [`Image`].
pub struct ImageView {
    pub url: Seq<char>,
    pub title: Option<Seq<char>>,
    pub link: Option<Seq<char>>,
    pub width: Option<u32>,
    pub height: Option<u32>,
    pub description: Option<Seq<char>>,
}

impl DeepView for Image {
    type V = ImageView;

    open spec fn deep_view(&self) -> ImageView {
        ImageView {
            url: self.url@,
            title: self.title.deep_view(),
            link: self.link.deep_view(),
            width: self.width,
            height: self.height,
            description: self.description.deep_view(),
        }
    }
}

/// A media file attached to an entry.
#[derive(Debug, Clone)]
pub struct Enclosure {
    /// Where the file is.
    pub url: String,
    /// Size of the file in bytes.
    pub length: Option<u64>,
    /// MIME type of the file.
    pub enclosure_type: Option<String>,
}

/// The mathematical value of an [`Enclosure`].
pub struct EnclosureView {
    pub url: Seq<char>,
    pub length: Option<u64>,
    pub enclosure_type: Option<Seq<char>>,
}

impl DeepView for Enclosure {
    type V = EnclosureView;

    open spec fn deep_view(&self) -> EnclosureView {
        EnclosureView {
            url: self.url@,
            length: self.length,
            enclosure_type: self.enclosure_type.deep_view(),
        }
    }
}

/// A block of content of an entry.
#[derive(Debug, Clone)]
pub struct Content {
    /// The content itself.
    pub value: String,
    /// MIME type of the content.
    pub content_type: Option<String>,
    /// Language of the content.
    pub language: Option<String>,
    /// Base URL for relative links in the content.
    pub base: Option<String>,
}

/// The mathematical value of a [`Content`].
pub struct ContentView {
    pub value: Seq<char>,
    pub content_type: Option<Seq<char>>,
    pub language: Option<Seq<char>>,
    pub base: Option<Seq<char>>,
}

impl DeepView for Content {
    type V = ContentView;

    open spec fn deep_view(&self) -> ContentView {
        ContentView {
            value: self.value@,
            content_type: self.content_type.deep_view(),
            language: self.language.deep_view(),
            base: self.base.deep_view(),
        }
    }
}

/// How the text of a text construct is to be read.
#[derive(Debug, Clone, Copy, PartialEq, Eq, Structural)]
pub enum TextType {
    /// Plain text.
    Text,
    /// HTML markup, escaped.
    Html,
    /// XHTML markup, inline.
    Xhtml,
}

/// A text together with the way it is to be read.
#[derive(Debug, Clone)]
pub struct TextConstruct {
    /// The text itself.
    pub value: String,
    /// How the text is to be read.
    pub content_type: TextType,
    /// Language of the text.
    pub language: Option<String>,
    /// Base URL for relative links in the text.
    pub base: Option<String>,
}

/// The mathematical value of a [`TextConstruct`].
pub struct TextConstructView {
    pub value: Seq<char>,
    pub content_type: TextType,
    pub language: Option<Seq<char>>,
    pub base: Option<Seq<char>>,
}

impl DeepView for TextConstruct {
    type V = TextConstructView;

    open spec fn deep_view(&self) -> TextConstructView {
        TextConstructView {
            value: self.value@,
            content_type: self.content_type,
            language: self.language.deep_view(),
            base: self.base.deep_view(),
        }
    }
}

/// The program that wrote a feed.
#[derive(Debug, Clone)]
pub struct Generator {
    /// Name of the generator.
    pub value: String,
    /// Home page of the generator.
    pub uri: Option<String>,
    /// Version of the generator.
    pub version: Option<String>,
}

/// The mathematical value of a [`Generator`].
pub struct GeneratorView {
    pub value: Seq<char>,
    pub uri: Option<Seq<char>>,
    pub version: Option<Seq<char>>,
}

impl DeepView for Generator {
    type V = GeneratorView;

    open spec fn deep_view(&self) -> GeneratorView {
        GeneratorView {
            value: self.value@,
            uri: self.uri.deep_view(),
            version: self.version.deep_view(),
        }
    }
}

/// The feed an entry was taken from.
#[derive(Debug, Clone)]
pub struct Source {
    /// Title of the feed the entry came from.
    pub title: Option<String>,
    /// Link to that feed.
    pub link: Option<String>,
    /// Identifier of that feed.
    pub id: Option<String>,
}

/// The mathematical value of a [`Source`].
pub struct SourceView {
    pub title: Option<Seq<char>>,
    pub link: Option<Seq<char>>,
    pub id: Option<Seq<char>>,
}

impl DeepView for Source {
    type V = SourceView;

    open spec fn deep_view(&self) -> SourceView {
        SourceView {
            title: self.title.deep_view(),
            link: self.link.deep_view(),
            id: self.id.deep_view(),
        }
    }
}

/// A namespace that a document declares.
#[derive(Debug, Clone)]
pub struct Namespace {
    /// The prefix; empty for the default namespace.
    pub prefix: String,
    /// The namespace the prefix is bound to.
    pub uri: String,
}

/// The mathematical value of a [`Namespace`].
pub struct NamespaceView {
    pub prefix: Seq<char>,
    pub uri: Seq<char>,
}

impl DeepView for Namespace {
    type V = NamespaceView;

    open spec fn deep_view(&self) -> NamespaceView {
        NamespaceView {
            prefix: self.prefix@,
            uri: self.uri@,
        }
    }
}

impl LinkView {
    /// The link that a set of attributes describes: none without a target.
    /// A link that names no relation is an `alternate`.
    pub open spec fn from_attributes(attrs: Seq<XmlAttrView>, max_length: usize) -> Option<
        LinkView,
    > {
        match attr_text(attrs, "href", max_length) {
            Some(href) => if href.len() == 0 {
                None
            } else {
                Some(
                    LinkView {
                        href,
                        rel: match attr_text(attrs, "rel", max_length) {
                            Some(rel) => Some(rel),
                            None => Some("alternate"@),
                        },
                        link_type: attr_text(attrs, "type", max_length),
                        title: attr_text(attrs, "title", max_length),
                        length: attr_number(attrs, "length", max_length),
                        hreflang: attr_text(attrs, "hreflang", max_length),
                    },
                )
            },
            None => None,
        }
    }
}

impl Link {
    /// Builds a link from the attributes of its element.
    ///
    /// Without a non-empty `href` there is no link. An attribute whose value
    /// is longer than `max_attr_length` is treated as absent.
    pub fn from_attributes(attrs: &Vec<XmlAttr>, max_attr_length: usize) -> (link: Option<Link>)
        ensures
            link.deep_view() == LinkView::from_attributes(attrs.deep_view(), max_attr_length),
    {
        match find_text(attrs, "href", max_attr_length) {
            Some(href) => {
                if href.as_str().is_empty() {
                    return None;
                }
                let rel = match find_text(attrs, "rel", max_attr_length) {
                    Some(rel) => Some(rel),
                    None => Some("alternate".to_owned()),
                };
                Some(
                    Link {
                        href,
                        rel,
                        link_type: find_text(attrs, "type", max_attr_length),
                        title: find_text(attrs, "title", max_attr_length),
                        length: find_number(attrs, "length", max_attr_length),
                        hreflang: find_text(attrs, "hreflang", max_attr_length),
                    },
                )
            },
            None => None,
        }
    }
}

impl TagView {
    /// The tag that a set of attributes describes: none without a term. The
    /// scheme may also be written as `domain`.
    pub open spec fn from_attributes(attrs: Seq<XmlAttrView>, max_length: usize) -> Option<
        TagView,
    > {
        match attr_text(attrs, "term", max_length) {
            Some(term) => if term.len() == 0 {
                None
            } else {
                Some(
                    TagView {
                        term,
                        scheme: match attr_value(attrs, "scheme", "domain", max_length) {
                            Some(value) => Some(attribute_text(value)),
                            None => None,
                        },
                        label: attr_text(attrs, "label", max_length),
                    },
                )
            },
            None => None,
        }
    }
}

impl Tag {
    /// Builds a tag from the attributes of its element.
    ///
    /// Without a non-empty `term` there is no tag. An attribute whose value
    /// is longer than `max_attr_length` is treated as absent.
    pub fn from_attributes(attrs: &Vec<XmlAttr>, max_attr_length: usize) -> (tag: Option<Tag>)
        ensures
            tag.deep_view() == TagView::from_attributes(attrs.deep_view(), max_attr_length),
    {
        match find_text(attrs, "term", max_attr_length) {
            Some(term) => {
                if term.as_str().is_empty() {
                    return None;
                }
                let scheme = match find_attr(attrs, "scheme", "domain", max_attr_length) {
                    Some(value) => Some(attribute_string(value.as_slice())),
                    None => None,
                };
                Some(Tag { term, scheme, label: find_text(attrs, "label", max_attr_length) })
            },
            None => None,
        }
    }
}

impl EnclosureView {
    /// The enclosure that a set of attributes describes: none without a URL.
    pub open spec fn from_attributes(attrs: Seq<XmlAttrView>, max_length: usize) -> Option<
        EnclosureView,
    > {
        match attr_text(attrs, "url", max_length) {
            Some(url) => if url.len() == 0 {
                None
            } else {
                Some(
                    EnclosureView {
                        url,
                        length: attr_number(attrs, "length", max_length),
                        enclosure_type: attr_text(attrs, "type", max_length),
                    },
                )
            },
            None => None,
        }
    }
}

impl Enclosure {
    /// Builds an enclosure from the attributes of its element.
    ///
    /// Without a non-empty `url` there is no enclosure. An attribute whose
    /// value is longer than `max_attr_length` is treated as absent.
    pub fn from_attributes(attrs: &Vec<XmlAttr>, max_attr_length: usize) -> (enclosure: Option<
        Enclosure,
    >)
        ensures
            enclosure.deep_view() == EnclosureView::from_attributes(
                attrs.deep_view(),
                max_attr_length,
            ),
    {
        match find_text(attrs, "url", max_attr_length) {
            Some(url) => {
                if url.as_str().is_empty() {
                    return None;
                }
                Some(
                    Enclosure {
                        url,
                        length: find_number(attrs, "length", max_attr_length),
                        enclosure_type: find_text(attrs, "type", max_attr_length),
                    },
                )
            },
            None => None,
        }
    }
}

} // verus!
