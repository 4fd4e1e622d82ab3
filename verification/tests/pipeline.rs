use epub_stream_cleaner::xml::{root_scan, RootScan};
use epub_stream_cleaner::{
    clean_markup_entry, mime_type, plan_entry, validate_input_container, validate_xml, CleanOptions,
    CleanReport, EntryMeta, EntryPlan, ErrorKind,
};

const CONTAINER: &str = r#"<?xml version="1.0"?><container xmlns="urn:oasis:names:tc:opendocument:xmlns:container"><rootfiles><rootfile full-path="OEBPS/content.opf" media-type="application/oebps-package+xml"/></rootfiles></container>"#;
const OPF: &str = r#"<?xml version="1.0"?><package xmlns="http://www.idpf.org/2007/opf" version="3.0"><manifest><item id="content" href="content.xhtml" media-type="application/xhtml+xml"/></manifest><spine><itemref idref="content"/></spine></package>"#;

/// The fixture book as (name, content) pairs, in archive order.
fn fixture(xhtml: &str) -> Vec<(String, Vec<u8>)> {
    vec![
        ("mimetype".to_string(), b"application/epub+zip".to_vec()),
        ("META-INF/container.xml".to_string(), CONTAINER.as_bytes().to_vec()),
        ("OEBPS/content.opf".to_string(), OPF.as_bytes().to_vec()),
        ("OEBPS/content.xhtml".to_string(), xhtml.as_bytes().to_vec()),
    ]
}

/// Checks the container rules on an in-memory book.
fn check_book(book: &[(String, Vec<u8>)], options: &CleanOptions) {
    let metas: Vec<EntryMeta> = book
        .iter()
        .map(|(name, data)| EntryMeta::new(name.clone(), false, data.len() as u64, name == "mimetype"))
        .collect();
    let container = book.iter().find(|(n, _)| n == "META-INF/container.xml").map(|(_, d)| d.as_slice());
    validate_input_container(&metas, &book[0].1, container, options.max_entry_bytes).unwrap();
}

/// Cleans an in-memory book entry by entry with the library's decisions, and
/// checks the cleaned book as the command does before replacing its output.
fn clean_book(book: &[(String, Vec<u8>)], options: &CleanOptions) -> (Vec<(String, Vec<u8>)>, CleanReport) {
    check_book(book, options);
    let metas: Vec<EntryMeta> = book
        .iter()
        .map(|(name, data)| EntryMeta::new(name.clone(), false, data.len() as u64, name == "mimetype"))
        .collect();
    let mut report = CleanReport::new("in".to_string(), "out".to_string());
    let mut out = Vec::new();
    for (index, ((name, data), meta)) in book.iter().zip(&metas).enumerate() {
        match plan_entry(index, meta, options, &mut report).unwrap() {
            EntryPlan::Mimetype => {
                out.push(("mimetype".to_string(), mime_type()));
                report.record_written(20);
            }
            EntryPlan::Markup => {
                let (cleaned, stats) = clean_markup_entry(name, data, options).unwrap();
                report.record_written(cleaned.len() as u64);
                report.record_transformed(&stats);
                out.push((name.clone(), cleaned));
            }
            EntryPlan::Xml => {
                validate_xml(data, name).unwrap();
                report.record_written(data.len() as u64);
                out.push((name.clone(), data.clone()));
            }
            EntryPlan::Copy => {
                report.record_written(data.len() as u64);
                out.push((name.clone(), data.clone()));
            }
            EntryPlan::Directory => out.push((name.clone(), Vec::new())),
        }
    }
    check_book(&out, options);
    (out, report)
}

fn entry(book: &[(String, Vec<u8>)], name: &str) -> String {
    String::from_utf8(book.iter().find(|(n, _)| n == name).unwrap().1.clone()).unwrap()
}

#[test]
fn strict_xhtml_keeps_namespace_and_semantic_noteref() {
    let input = fixture(
        r##"<?xml version="1.0" encoding="UTF-8"?><html xmlns="http://www.w3.org/1999/xhtml"><head><title>Book</title></head><body><br/><a href="ftp://example.com" epub:type="noteref">[1]</a><a href="#note-1">note</a><a href="https://example.com">ad</a></body></html>"##,
    );
    let (output, report) = clean_book(&input, &CleanOptions::default());
    let content = entry(&output, "OEBPS/content.xhtml");
    assert!(content.contains("xmlns=\"http://www.w3.org/1999/xhtml\""));
    assert!(content.contains("<br/>") || content.contains("<br />"));
    assert!(content.contains("ftp://example.com"));
    assert!(content.contains("epub:type=\"noteref\""));
    assert!(content.contains("href=\"#note-1\""));
    assert!(!content.contains("href=\"https://example.com\""));
    assert_eq!(report.entries, 4);
    assert_eq!(report.transformed_entries, 1);
    assert_eq!(report.external_links_removed, 1);
}

#[test]
fn clean_is_idempotent_for_a_stable_xhtml_fixture() {
    let input = fixture(
        r##"<?xml version="1.0"?><html xmlns="http://www.w3.org/1999/xhtml"><body><p class="ad-banner"><img src="cover.jpg"/>Offer</p><a href="https://example.com">Chapter</a><a href="#note-1">Footnote</a></body></html>"##,
    );
    let (first, _) = clean_book(&input, &CleanOptions::default());
    let (second, report) = clean_book(&first, &CleanOptions::default());
    assert_eq!(entry(&first, "OEBPS/content.xhtml"), entry(&second, "OEBPS/content.xhtml"));
    assert_eq!(report.external_links_removed, 0);
    assert_eq!(report.ad_containers_removed, 0);
}

#[test]
fn report_counts_the_book() {
    let input = fixture(
        r##"<?xml version="1.0"?><html xmlns="http://www.w3.org/1999/xhtml"><body><p class="ad-banner"><img src="cover.jpg"/>Offer</p><a href="https://example.com">Chapter</a></body></html>"##,
    );
    let (output, report) = clean_book(&input, &CleanOptions::default());
    let bytes_in: u64 = input.iter().map(|(_, d)| d.len() as u64).sum();
    let bytes_out: u64 = output.iter().map(|(_, d)| d.len() as u64).sum();
    assert_eq!(report.entries, 4);
    assert_eq!(report.bytes_in, bytes_in);
    assert_eq!(report.bytes_out, bytes_out);
    assert_eq!(report.ad_containers_removed, 1);
    assert_eq!(report.external_links_removed, 1);
    assert_eq!(
        entry(&output, "OEBPS/content.xhtml"),
        r#"<?xml version="1.0"?><html xmlns="http://www.w3.org/1999/xhtml"><body><img src="cover.jpg"/>OfferChapter</body></html>"#
    );
}

#[test]
fn planning_follows_entry_kinds_and_limits() {
    let options = CleanOptions::default();
    let mut report = CleanReport::new(String::new(), String::new());
    let plan = |index, name: &str, dir, size, report: &mut CleanReport| {
        plan_entry(index, &EntryMeta::new(name.to_string(), dir, size, false), &options, report)
    };
    assert_eq!(plan(0, "anything.xhtml", false, 1, &mut report).unwrap(), EntryPlan::Mimetype);
    assert_eq!(plan(1, "a.XHTML", false, 1, &mut report).unwrap(), EntryPlan::Markup);
    assert_eq!(plan(1, "a.opf", false, 1, &mut report).unwrap(), EntryPlan::Xml);
    assert_eq!(plan(1, "dir.xml/", true, 0, &mut report).unwrap(), EntryPlan::Directory);
    assert_eq!(plan(1, "cover.jpg", false, 1, &mut report).unwrap(), EntryPlan::Copy);
    assert_eq!(report.entries, 5);
    let error = plan(1, "huge.bin", false, u64::MAX, &mut report).unwrap_err();
    assert_eq!(error.kind(), ErrorKind::EntryTooLarge);
    assert_eq!(report.entries, 6);
    assert_eq!(report.bytes_in, u64::MAX);
    let error = plan(1, "../x", false, 1, &mut report).unwrap_err();
    assert_eq!(error.kind(), ErrorKind::InvalidEpub);
    assert_eq!(report.entries, 6);
}

#[test]
fn malformed_xhtml_is_refused_before_rewriting() {
    let options = CleanOptions::default();
    let error = clean_markup_entry("c.xhtml", b"<html><p></html>", &options).unwrap_err();
    assert!(error.message().starts_with("invalid EPUB: malformed XML in c.xhtml: "));
    // HTML is not held to XML rules.
    assert!(clean_markup_entry("c.html", b"<html><p></html>", &options).is_ok());
}

#[test]
fn options_from_switches() {
    let options = CleanOptions::from_switches(false, true, 3);
    assert!(options.remove_external_links);
    assert!(!options.remove_ad_containers);
    assert_eq!(options.max_entry_bytes, 3 * 1024 * 1024);
    assert_eq!(CleanOptions::from_switches(true, false, u64::MAX).max_entry_bytes, u64::MAX);
    assert_eq!(CleanOptions::default().max_entry_bytes, 256 * 1024 * 1024);
}

#[test]
fn xhtml_must_keep_its_root_namespace() {
    let options = CleanOptions::default();
    let input = br#"<div xmlns="http://www.w3.org/1999/xhtml" class="ad"><p>x</p></div>"#;
    let error = clean_markup_entry("c.xhtml", input, &options).unwrap_err();
    assert_eq!(error.kind(), ErrorKind::InvalidEpub);
    assert_eq!(error.message(), "invalid EPUB: root namespace changed in c.xhtml");
    // Under another name the same rewrite is accepted.
    let (cleaned, stats) = clean_markup_entry("c.html", input, &options).unwrap();
    assert_eq!(cleaned, b"<p>x</p>".to_vec());
    assert_eq!(stats.ad_containers_removed, 1);
}

#[test]
fn root_namespace_is_read_from_the_first_element() {
    let scan = |data: &[u8]| format!("{:?}", root_scan(data));
    assert_eq!(
        scan(br#"<?xml version="1.0"?><html xmlns="urn:x"><p xmlns="urn:y"/></html>"#),
        format!("{:?}", RootScan::Namespace(Some("urn:x".to_string())))
    );
    assert_eq!(scan(b"<html><p/></html>"), format!("{:?}", RootScan::<String>::Namespace(None)));
    assert_eq!(scan(b"no markup"), format!("{:?}", RootScan::<String>::NoElement));
    assert!(matches!(root_scan(b"<a x='1' x></a>"), RootScan::AttributeError(_)));
}

#[test]
fn default_report_is_empty() {
    let report = CleanReport::default();
    assert_eq!(report.input, "");
    assert_eq!(report.entries, 0);
    assert_eq!(report.bytes_out, 0);
}

#[test]
fn upper_case_xhtml_is_checked_like_xhtml() {
    let options = CleanOptions::default();
    let error = clean_markup_entry("OEBPS/C.XHTML", b"<html><p></html>", &options).unwrap_err();
    assert!(error.message().starts_with("invalid EPUB: malformed XML in OEBPS/C.XHTML: "));
    let input = br#"<div xmlns="http://www.w3.org/1999/xhtml" class="ad"><p>x</p></div>"#;
    let error = clean_markup_entry("OEBPS/C.XHTML", input, &options).unwrap_err();
    assert_eq!(error.message(), "invalid EPUB: root namespace changed in OEBPS/C.XHTML");
}

#[test]
fn malformed_xml_entry_stops_the_book() {
    let mut book = fixture(r#"<html xmlns="http://www.w3.org/1999/xhtml"><body/></html>"#);
    book[2].1 = b"<package><manifest></package>".to_vec();
    let options = CleanOptions::default();
    let metas: Vec<EntryMeta> = book
        .iter()
        .map(|(name, data)| EntryMeta::new(name.clone(), false, data.len() as u64, name == "mimetype"))
        .collect();
    let mut report = CleanReport::default();
    assert_eq!(plan_entry(2, &metas[2], &options, &mut report).unwrap(), EntryPlan::Xml);
    let error = validate_xml(&book[2].1, &book[2].0).unwrap_err();
    assert!(error.message().starts_with("invalid EPUB: malformed XML in OEBPS/content.opf: "));
}

#[test]
fn keep_switches_return_the_entry_unchanged() {
    let options = CleanOptions::from_switches(true, true, 256);
    let input = br#"<?xml version="1.0"?><html xmlns="http://www.w3.org/1999/xhtml"><body><p class="ad"><a href="https://e.com">x</a></p></body></html>"#;
    let (cleaned, stats) = clean_markup_entry("c.xhtml", input, &options).unwrap();
    assert_eq!(cleaned, input.to_vec());
    assert_eq!(stats.external_links_removed + stats.ad_containers_removed, 0);
}
