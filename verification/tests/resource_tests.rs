use gemini_crawler::resource::{Resource, UrlError};

#[test]
fn parse_normalizes_an_absolute_address() {
    let r = Resource::parse("GEMINI://example.org/a/../b?q=1").unwrap();
    assert_eq!(r.as_str(), "gemini://example.org/b?q=1");
    assert_eq!(r.to_text(), "gemini://example.org/b?q=1");
    assert_eq!(r.scheme(), "gemini");
    assert_eq!(r.domain(), Some("example.org"));
    assert_eq!(r.path(), "/b");
    assert!(r.is_gemini());
}

#[test]
fn parse_tells_a_relative_reference_apart() {
    assert_eq!(Resource::parse("docs/index.gmi").unwrap_err(), UrlError::RelativeWithoutBase);
    assert_eq!(Resource::parse("gemini://[::1").unwrap_err(), UrlError::Invalid);
}

#[test]
fn identity_is_the_full_normalized_text() {
    let a = Resource::parse("gemini://example.org/page?x=1").unwrap();
    let b = Resource::parse("gemini://example.org/page?x=2").unwrap();
    let c = Resource::parse("gemini://example.org/./page?x=1").unwrap();
    assert!(!a.same_as(&b));
    assert!(a != b);
    assert!(a.same_as(&c));
    assert!(a == c);
    assert!(a.clone() == a);
}

#[test]
fn an_address_without_a_domain_has_none() {
    let r = Resource::parse("gemini://[::1]/x").unwrap();
    assert_eq!(r.domain(), None);
    assert!(r.is_gemini());
    let m = Resource::parse("mailto:someone@example.org").unwrap();
    assert_eq!(m.domain(), None);
    assert!(!m.is_gemini());
}

#[test]
fn join_resolves_against_the_base() {
    let base = Resource::parse("gemini://example.org/a/b.gmi").unwrap();
    assert_eq!(base.join("c.gmi").unwrap().as_str(), "gemini://example.org/a/c.gmi");
    assert_eq!(base.join("/root").unwrap().as_str(), "gemini://example.org/root");
    assert_eq!(base.join("../up").unwrap().as_str(), "gemini://example.org/up");
    assert_eq!(base.join("https://other.example/x").unwrap().as_str(), "https://other.example/x");
    assert_eq!(base.join("gemini://[::1").unwrap_err(), UrlError::Invalid);
}

#[test]
fn resolve_takes_absolute_targets_as_they_are_and_joins_relative_ones() {
    let base = Resource::parse("gemini://example.org/a/b.gmi").unwrap();
    assert_eq!(
        base.resolve("gemini://other.example/z").unwrap().as_str(),
        "gemini://other.example/z"
    );
    assert_eq!(base.resolve("c.gmi").unwrap().as_str(), "gemini://example.org/a/c.gmi");
    assert!(base.resolve("gemini://[::1").is_none());
}

#[test]
fn resolve_parsed_decides_by_the_outcome_of_the_parse() {
    let base = Resource::parse("gemini://example.org/a/").unwrap();
    let other = Resource::parse("gemini://other.example/").unwrap();
    assert!(base.resolve_parsed(Ok(other.clone()), "ignored").unwrap() == other);
    assert_eq!(
        base.resolve_parsed(Err(UrlError::RelativeWithoutBase), "x").unwrap().as_str(),
        "gemini://example.org/a/x"
    );
    assert!(base.resolve_parsed(Err(UrlError::Invalid), "x").is_none());
    let opaque = Resource::parse("mailto:someone@example.org").unwrap();
    assert!(opaque.resolve_parsed(Err(UrlError::RelativeWithoutBase), "x").is_none());
}
