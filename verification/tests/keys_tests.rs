use wiki_extract::keys::{parse_url, sanitize_name};

#[test]
fn parse_url_derives_key_after_marker() {
    let r = parse_url("https://en.example.org/wiki/Rust_(language)");
    assert_eq!(r.unwrap(), "Rust_(language).html");
}

#[test]
fn parse_url_takes_first_marker() {
    let r = parse_url("/wiki//wiki/A");
    assert_eq!(r.unwrap(), "/wiki/A.html");
}

#[test]
fn parse_url_empty_suffix() {
    let r = parse_url("https://en.example.org/wiki/");
    assert_eq!(r.unwrap(), ".html");
}

#[test]
fn parse_url_without_marker_is_rejected() {
    let r = parse_url("https://en.example.org/w/Rust");
    assert_eq!(r.unwrap_err(), "no /wiki/ in https://en.example.org/w/Rust");
}

#[test]
fn sanitize_replaces_hostile_characters() {
    assert_eq!(sanitize_name("a/b:c*d"), "a__b__colon__c__star__d");
}

#[test]
fn sanitize_keeps_ordinary_names() {
    assert_eq!(sanitize_name("Rust_(language).html"), "Rust_(language).html");
}

#[test]
fn sanitize_empty_name() {
    assert_eq!(sanitize_name(""), "");
}

#[test]
fn sanitize_keeps_distinct_names_distinct() {
    // Same dangerous characters at the same positions, differing only
    // at an ordinary position: the sanitized forms stay distinct.
    let a = sanitize_name("a:b");
    let b = sanitize_name("c:b");
    assert_eq!(a, "a__colon__b");
    assert_eq!(b, "c__colon__b");
    assert_ne!(a, b);
}

#[test]
fn sanitize_unicode_name() {
    assert_eq!(sanitize_name("Zürich/α"), "Zürich__α");
}
