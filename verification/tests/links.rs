use epub_stream_cleaner::{anchor_should_unwrap, is_ad_marker, is_external_href};

#[test]
fn preserves_internal_and_fragment_links() {
    assert!(!is_external_href("#footnote-1"));
    assert!(!is_external_href("chapter2.xhtml#p3"));
    assert!(!is_external_href("mailto:author@example.com"));
}

#[test]
fn recognizes_external_http_links_only() {
    assert!(is_external_href("https://example.com/ad"));
    assert!(is_external_href("//cdn.example.com/a.js"));
    assert!(!is_external_href("images/cover.jpg"));
}

#[test]
fn ad_detection_avoids_substrings() {
    assert!(is_ad_marker("ad-banner sponsored"));
    assert!(!is_ad_marker("address-card"));
    assert!(!is_ad_marker("chapter"));
}

#[test]
fn external_href_is_trimmed_and_case_insensitive_in_scheme() {
    assert!(is_external_href("  HTTP://Example.com/x  "));
    assert!(is_external_href("\n\thttps://example.com"));
    assert!(is_external_href("  //host/path"));
    assert!(!is_external_href("ftp://example.com"));
    assert!(!is_external_href("../Text/chapter.xhtml"));
    assert!(!is_external_href(""));
    assert!(!is_external_href("   "));
    assert!(!is_external_href("#a:b"));
    assert!(!is_external_href("/absolute/path.xhtml"));
}

#[test]
fn url_parser_decides_the_scheme() {
    // `http:` with no host is refused by the URL parser, so it is not a link out.
    assert!(!is_external_href("http://"));
    assert!(is_external_href("https:example.com"));
    assert!(!is_external_href("data:text/plain,hello"));
}

#[test]
fn note_references_are_never_unwrapped() {
    let href = Some("https://example.com/note".to_string());
    assert!(anchor_should_unwrap(&href, &None, &None, true));
    assert!(!anchor_should_unwrap(&href, &Some("noteref".to_string()), &None, true));
    assert!(!anchor_should_unwrap(&href, &Some("footnote noteref".to_string()), &None, true));
    assert!(!anchor_should_unwrap(&href, &None, &Some("doc-noteref".to_string()), true));
    assert!(anchor_should_unwrap(&href, &None, &Some("doc-note".to_string()), true));
    assert!(!anchor_should_unwrap(&href, &None, &None, false));
    assert!(!anchor_should_unwrap(&Some("#note-1".to_string()), &None, &None, true));
    assert!(!anchor_should_unwrap(&None, &None, &None, true));
}

#[test]
fn ad_markers_are_whole_tokens_in_any_case() {
    assert!(is_ad_marker("AD"));
    assert!(is_ad_marker("top.Advertisement"));
    assert!(is_ad_marker("x:promoted"));
    assert!(is_ad_marker("box_sponsor"));
    assert!(is_ad_marker("a\tbanner\nb"));
    assert!(is_ad_marker("promotion"));
    assert!(is_ad_marker("ADS"));
    assert!(is_ad_marker("advert"));
    assert!(!is_ad_marker(""));
    assert!(!is_ad_marker("adverts"));
    assert!(!is_ad_marker("banners-top"));
    assert!(!is_ad_marker("loading"));
    assert!(!is_ad_marker("a d"));
    assert!(!is_ad_marker("ad\u{0b}x"));
    assert!(!is_ad_marker("ÀD"));
}
