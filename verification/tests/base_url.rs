use feedparser_rs_core::{combine_bases, resolve_url, BaseUrlContext};

#[test]
fn test_resolve_absolute_url() {
    assert_eq!(
        resolve_url("http://example.com/page", Some("http://other.com/")),
        "http://example.com/page"
    );
    assert_eq!(
        resolve_url("https://example.com/page", Some("http://other.com/")),
        "https://example.com/page"
    );
}

#[test]
fn test_resolve_relative_url() {
    assert_eq!(
        resolve_url("page.html", Some("http://example.com/dir/")),
        "http://example.com/dir/page.html"
    );
    assert_eq!(
        resolve_url("/absolute/path", Some("http://example.com/dir/")),
        "http://example.com/absolute/path"
    );
    assert_eq!(
        resolve_url("../sibling/page", Some("http://example.com/dir/sub/")),
        "http://example.com/dir/sibling/page"
    );
}

#[test]
fn test_resolve_without_base() {
    assert_eq!(resolve_url("page.html", None), "page.html");
    assert_eq!(
        resolve_url("http://example.com", None),
        "http://example.com"
    );
}

#[test]
fn test_resolve_invalid_base() {
    assert_eq!(
        resolve_url("page.html", Some("not a valid url")),
        "page.html"
    );
}

#[test]
fn test_resolve_special_schemes() {
    assert_eq!(
        resolve_url("mailto:test@example.com", Some("http://example.com/")),
        "mailto:test@example.com"
    );
    assert_eq!(
        resolve_url("tel:+1234567890", Some("http://example.com/")),
        "tel:+1234567890"
    );
}

#[test]
fn test_combine_bases_child_absolute() {
    assert_eq!(
        combine_bases(Some("http://parent.com/"), Some("http://child.com/")),
        Some("http://child.com/".to_string())
    );
}

#[test]
fn test_combine_bases_child_relative() {
    assert_eq!(
        combine_bases(Some("http://example.com/feed/"), Some("items/")),
        Some("http://example.com/feed/items/".to_string())
    );
}

#[test]
fn test_combine_bases_no_child() {
    assert_eq!(
        combine_bases(Some("http://example.com/"), None),
        Some("http://example.com/".to_string())
    );
}

#[test]
fn test_combine_bases_no_parent() {
    assert_eq!(
        combine_bases(None, Some("http://example.com/")),
        Some("http://example.com/".to_string())
    );
}

#[test]
fn test_combine_bases_none() {
    assert_eq!(combine_bases(None, None), None);
}

#[test]
fn test_context_new() {
    let ctx = BaseUrlContext::new();
    assert!(ctx.base().is_none());
}

#[test]
fn test_context_with_base() {
    let ctx = BaseUrlContext::with_base("http://example.com/");
    assert_eq!(ctx.base(), Some("http://example.com/"));
}

#[test]
fn test_context_update_base() {
    let mut ctx = BaseUrlContext::with_base("http://example.com/feed/");
    ctx.update_base("items/");
    assert_eq!(ctx.base(), Some("http://example.com/feed/items/"));
}

#[test]
fn test_context_resolve() {
    let ctx = BaseUrlContext::with_base("http://example.com/feed/");
    assert_eq!(
        ctx.resolve("item.html"),
        "http://example.com/feed/item.html"
    );
    assert_eq!(ctx.resolve("http://other.com/"), "http://other.com/");
}

#[test]
fn test_context_child() {
    let parent = BaseUrlContext::with_base("http://example.com/");
    let child = parent.child();
    assert_eq!(child.base(), Some("http://example.com/"));
}

#[test]
fn test_context_child_with_base() {
    let parent = BaseUrlContext::with_base("http://example.com/feed/");
    let child = parent.child_with_base("items/");
    assert_eq!(child.base(), Some("http://example.com/feed/items/"));
}

#[test]
fn test_fragment_preservation() {
    assert_eq!(
        resolve_url("#section", Some("http://example.com/page.html")),
        "http://example.com/page.html#section"
    );
}

#[test]
fn test_query_string_preservation() {
    assert_eq!(
        resolve_url("?query=value", Some("http://example.com/page.html")),
        "http://example.com/page.html?query=value"
    );
}

#[test]
fn test_empty_href() {
    // An empty href names the base itself.
    assert_eq!(
        resolve_url("", Some("http://example.com/page.html")),
        "http://example.com/page.html"
    );
}

#[test]
fn resolve_keeps_every_absolute_scheme() {
    for href in [
        "http://x.com/a",
        "https://x.com/a",
        "ftp://x.com/a",
        "mailto:a@b.com",
        "tel:+1",
    ] {
        assert_eq!(resolve_url(href, Some("http://y.com/")), href);
        assert_eq!(resolve_url(href, Some("not a url")), href);
        assert_eq!(resolve_url(href, None), href);
    }
}

#[test]
fn resolve_joins_an_unlisted_scheme_as_the_url_rules_say() {
    // `data:` is not one of the schemes passed through, so the join decides.
    assert_eq!(
        resolve_url("data:text/plain,hi", Some("http://y.com/")),
        "data:text/plain,hi"
    );
    assert_eq!(
        resolve_url("//cdn.example.com/x.js", Some("https://y.com/a/b")),
        "https://cdn.example.com/x.js"
    );
}

#[test]
fn resolve_normalises_through_the_base() {
    // The result comes from the join, not from gluing the two texts.
    assert_eq!(
        resolve_url("a/./b/../c", Some("http://example.com/dir/")),
        "http://example.com/dir/a/c"
    );
}

#[test]
fn context_without_base_resolves_to_the_href() {
    let ctx = BaseUrlContext::new();
    assert_eq!(ctx.resolve("page.html"), "page.html");
    let child = ctx.child_with_base("http://example.com/a/");
    assert_eq!(child.base(), Some("http://example.com/a/"));
    assert_eq!(child.resolve("b"), "http://example.com/a/b");
}
