//! Resolution of relative URLs against an `xml:base`.

use vstd::prelude::*;
use vstd::utf8::encode_utf8;
use url::Url;
use crate::text::starts_with_bytes;

verus! {

/// The URL that `href` names when it is read relative to the URL `base`:
/// `None` where `base` is no URL or the two cannot be combined.
pub uninterp spec fn joined_url(base: Seq<char>, href: Seq<char>) -> Option<Seq<char>>;

/// `url::Url::parse` on `base`, then `url::Url::join` with `href`, and the
/// result written out as text.
///
/// Trusted: the outcome is a function of the two texts.
#[verifier::external_body]
fn join_url(base: &str, href: &str) -> (joined: Option<String>)
    ensures
        joined is Some == joined_url(base@, href@) is Some,
        joined is Some ==> joined->0@ == joined_url(base@, href@)->0,
{
    match Url::parse(base) {
        Ok(parsed) => parsed.join(href).ok().map(String::from),
        Err(_) => None,
    }
}

/// Whether `text` begins with the literal `prefix`, byte for byte.
pub open spec fn has_prefix(text: Seq<char>, prefix: &str) -> bool {
    encode_utf8(prefix@).is_prefix_of(encode_utf8(text))
}

/// Whether `href` carries one of the schemes that mark a URL as absolute.
pub open spec fn has_absolute_scheme(href: Seq<char>) -> bool {
    ||| has_prefix(href, "http://")
    ||| has_prefix(href, "https://")
    ||| has_prefix(href, "mailto:")
    ||| has_prefix(href, "tel:")
    ||| has_prefix(href, "ftp://")
}

/// What `resolve_url` returns.
pub open spec fn resolved_url(href: Seq<char>, base: Option<Seq<char>>) -> Seq<char> {
    if has_absolute_scheme(href) {
        href
    } else {
        match base {
            None => href,
            Some(b) => match joined_url(b, href) {
                Some(joined) => joined,
                None => href,
            },
        }
    }
}

/// What `combine_bases` returns.
pub open spec fn combined_base(parent: Option<Seq<char>>, child: Option<Seq<char>>) -> Option<
    Seq<char>,
> {
    match child {
        Some(c) => Some(resolved_url(c, parent)),
        None => parent,
    }
}

/// The text of an optional string slice.
pub open spec fn text_of(s: Option<&str>) -> Option<Seq<char>> {
    match s {
        Some(t) => Some(t@),
        None => None,
    }
}

/// The text of an optional string.
pub open spec fn string_text_of(s: Option<String>) -> Option<Seq<char>> {
    match s {
        Some(t) => Some(t@),
        None => None,
    }
}

/// Whether `href` carries a scheme that marks it as absolute.
pub fn is_absolute(href: &str) -> (absolute: bool)
    ensures
        absolute == has_absolute_scheme(href@),
{
    let bytes = href.as_bytes();
    starts_with_bytes(bytes, "http://".as_bytes()) || starts_with_bytes(
        bytes,
        "https://".as_bytes(),
    ) || starts_with_bytes(bytes, "mailto:".as_bytes()) || starts_with_bytes(
        bytes,
        "tel:".as_bytes(),
    ) || starts_with_bytes(bytes, "ftp://".as_bytes())
}

/// Resolves `href` against `base`.
///
/// An `href` with an absolute scheme is returned as it is; so is any `href`
/// when there is no base, when the base is no URL, or when the two cannot be
/// combined. Otherwise the result is `href` joined onto `base`.
pub fn resolve_url(href: &str, base: Option<&str>) -> (resolved: String)
    ensures
        resolved@ == resolved_url(href@, text_of(base)),
{
    if is_absolute(href) {
        return href.to_owned();
    }
    match base {
        None => href.to_owned(),
        Some(base_str) => match join_url(base_str, href) {
            Some(joined) => joined,
            None => href.to_owned(),
        },
    }
}

/// The base in force inside an element that declares `child_base`, where
/// `parent_base` is in force around it.
///
/// A child base is resolved against the parent's; without one the parent's
/// carries through.
pub fn combine_bases(parent_base: Option<&str>, child_base: Option<&str>) -> (combined: Option<
    String,
>)
    ensures
        string_text_of(combined) == combined_base(text_of(parent_base), text_of(child_base)),
{
    match child_base {
        Some(child) => Some(resolve_url(child, parent_base)),
        None => match parent_base {
            Some(parent) => Some(parent.to_owned()),
            None => None,
        },
    }
}

/// The base URL in force at one point of a document.
#[derive(Debug, Clone)]
pub struct BaseUrlContext {
    base: Option<String>,
}

impl View for BaseUrlContext {
    type V = Option<Seq<char>>;

    closed spec fn view(&self) -> Option<Seq<char>> {
        string_text_of(self.base)
    }
}

impl BaseUrlContext {
    /// A context without a base.
    pub fn new() -> (ctx: BaseUrlContext)
        ensures
            ctx@ == None::<Seq<char>>,
    {
        BaseUrlContext { base: None }
    }

    /// A context whose base is `base`.
    pub fn with_base(base: &str) -> (ctx: BaseUrlContext)
        ensures
            ctx@ == Some(base@),
    {
        BaseUrlContext { base: Some(base.to_owned()) }
    }

    /// The base in force, if there is one.
    pub fn base(&self) -> (base: Option<&str>)
        ensures
            text_of(base) == self@,
    {
        match &self.base {
            Some(b) => Some(b.as_str()),
            None => None,
        }
    }

    /// Enters an element that declares `xml_base`: the new base is
    /// `xml_base` resolved against the one in force.
    pub fn update_base(&mut self, xml_base: &str)
        ensures
            final(self)@ == Some(resolved_url(xml_base@, old(self)@)),
    {
        let new_base = resolve_url(xml_base, self.base());
        self.base = Some(new_base);
    }

    /// Resolves `href` against the base in force.
    pub fn resolve(&self, href: &str) -> (resolved: String)
        ensures
            resolved@ == resolved_url(href@, self@),
    {
        resolve_url(href, self.base())
    }

    /// The context inside a child element that declares no base of its own.
    pub fn child(&self) -> (ctx: BaseUrlContext)
        ensures
            ctx@ == self@,
    {
        match &self.base {
            Some(b) => BaseUrlContext { base: Some(b.clone()) },
            None => BaseUrlContext { base: None },
        }
    }

    /// The context inside a child element that declares `xml_base`.
    pub fn child_with_base(&self, xml_base: &str) -> (ctx: BaseUrlContext)
        ensures
            ctx@ == combined_base(self@, Some(xml_base@)),
    {
        BaseUrlContext { base: combine_bases(self.base(), Some(xml_base)) }
    }
}

/// A URL with an absolute scheme resolves to itself, whatever the base.
pub proof fn lemma_absolute_url_is_unchanged(href: Seq<char>, base: Option<Seq<char>>)
    requires
        has_absolute_scheme(href),
    ensures
        resolved_url(href, base) == href,
{
}

/// Without a base every URL resolves to itself.
pub proof fn lemma_no_base_is_unchanged(href: Seq<char>)
    ensures
        resolved_url(href, None) == href,
{
}

/// An absolute child base replaces the parent's, and without a child base
/// the parent's carries through.
pub proof fn lemma_combined_base_cases(parent: Option<Seq<char>>, child: Seq<char>)
    ensures
        has_absolute_scheme(child) ==> combined_base(parent, Some(child)) == Some(child),
        combined_base(parent, None) == parent,
        combined_base(None, Some(child)) == Some(child),
{
}

} // verus!
