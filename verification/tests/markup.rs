use epub_stream_cleaner::markup::element_step;
use epub_stream_cleaner::{container_should_unwrap, transform_markup, CleanOptions, ErrorKind, TransformStats};

#[test]
fn streaming_rewrite_preserves_text_and_images() {
    let input = [
        r#"<html><body><p class="ad-banner"><img src="cover.jpg">Offer</p>"#,
        r#"<a href="https://example.com">Chapter</a>"#,
        r##"<a href="#note-1">Footnote</a></body></html>"##,
    ]
    .join("");
    let input = input.as_bytes();
    let mut output = Vec::new();
    let report = transform_markup(input, &mut output, &CleanOptions::default()).unwrap();
    let output = String::from_utf8(output).unwrap();
    assert!(output.contains("cover.jpg"));
    assert!(output.contains("Chapter"));
    assert!(output.contains("#note-1"));
    assert!(!output.contains("https://example.com"));
    assert_eq!(report.external_links_removed, 1);
    assert_eq!(report.ad_containers_removed, 1);
}

#[test]
fn rewrite_output_is_exact() {
    let input = br#"<div id="ad"><img src="a.png"></div><p>keep</p><a href="//x.org/y">go</a>"#;
    let mut output = Vec::new();
    let stats = transform_markup(input, &mut output, &CleanOptions::default()).unwrap();
    assert_eq!(String::from_utf8(output).unwrap(), r#"<img src="a.png"><p>keep</p>go"#);
    assert_eq!(stats.external_links_removed, 1);
    assert_eq!(stats.ad_containers_removed, 1);
}

#[test]
fn keep_switches_leave_markup_unchanged() {
    let input = br#"<section class="sponsored"><a href="https://example.com">x</a></section>"#;
    let options = CleanOptions::from_switches(true, true, 256);
    let mut output = b"prefix:".to_vec();
    let stats = transform_markup(input, &mut output, &options).unwrap();
    let mut expected = b"prefix:".to_vec();
    expected.extend_from_slice(input);
    assert_eq!(output, expected);
    assert_eq!(stats.external_links_removed, 0);
    assert_eq!(stats.ad_containers_removed, 0);
}

#[test]
fn noteref_anchor_survives_rewrite() {
    let input = br#"<a href="https://example.com/n1" epub:type="noteref">1</a><a href="http://e.com" role="doc-noteref">2</a>"#;
    let mut output = Vec::new();
    let stats = transform_markup(input, &mut output, &CleanOptions::default()).unwrap();
    assert_eq!(output, input.to_vec());
    assert_eq!(stats.external_links_removed, 0);
}

#[test]
fn images_and_non_container_elements_are_never_unwrapped() {
    let input = br#"<figure class="ad"><img class="ad" src="x.png"></figure><span id="ad">s</span>"#;
    let mut output = Vec::new();
    let stats = transform_markup(input, &mut output, &CleanOptions::default()).unwrap();
    assert_eq!(output, input.to_vec());
    assert_eq!(stats.ad_containers_removed, 0);
}

#[test]
fn only_listed_containers_are_unwrapped() {
    for tag in ["div", "section", "article", "aside", "header", "footer", "p", "table", "ul", "ol"] {
        let input = format!(r#"<{tag} class="ad">t</{tag}>"#);
        let mut output = Vec::new();
        let stats = transform_markup(input.as_bytes(), &mut output, &CleanOptions::default()).unwrap();
        assert_eq!(String::from_utf8(output).unwrap(), "t", "{tag}");
        assert_eq!(stats.ad_containers_removed, 1);
    }
}

#[test]
fn container_rule_reads_id_and_class() {
    let some = |s: &str| Some(s.to_string());
    assert!(container_should_unwrap(&some("ad"), &None, true));
    assert!(container_should_unwrap(&None, &some("x banner"), true));
    assert!(!container_should_unwrap(&some("ad"), &None, false));
    assert!(!container_should_unwrap(&some("address"), &some("card"), true));
    assert!(!container_should_unwrap(&None, &None, true));
}

#[test]
fn rewriter_failure_is_reported() {
    // A text-switching tag inside <select> is ambiguous; the strict rewriter bails out.
    let input = br#"<select><xmp>x</xmp></select>"#;
    let mut output = b"kept".to_vec();
    let error = transform_markup(input, &mut output, &CleanOptions::default()).unwrap_err();
    assert_eq!(error.kind(), ErrorKind::Rewrite);
    assert_eq!(output, b"kept".to_vec());
}

#[test]
fn element_rule_keeps_everything_but_anchors_and_containers() {
    let some = |s: &str| Some(s.to_string());
    let mut stats = TransformStats::default();
    for tag in ["img", "figure", "svg", "span", "body", "html", "li"] {
        assert!(!element_step(tag.to_string(), some("https://x.org"), None, None, some("ad"), some("ad"), true, true, &mut stats));
    }
    assert_eq!(stats.ad_containers_removed, 0);
    assert!(element_step("div".to_string(), None, None, None, None, some("ad"), true, true, &mut stats));
    assert!(element_step("a".to_string(), some("https://x.org"), None, None, None, None, true, true, &mut stats));
    // An anchor is judged by its link, never by an advertising class.
    assert!(!element_step("a".to_string(), some("#n"), None, None, some("ad"), some("ad"), true, true, &mut stats));
    assert_eq!(stats.ad_containers_removed, 1);
    assert_eq!(stats.external_links_removed, 1);
}

#[test]
fn anchors_without_href_are_kept() {
    let input = br#"<a name="top" class="ad">t</a><svg class="ad"><g/></svg>"#;
    let mut output = Vec::new();
    let stats = transform_markup(input, &mut output, &CleanOptions::default()).unwrap();
    assert_eq!(output, input.to_vec());
    assert_eq!(stats.external_links_removed + stats.ad_containers_removed, 0);
}
