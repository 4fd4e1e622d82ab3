use epub_stream_cleaner::{
    compression_for, is_epub_extension, is_markup_entry, is_xml_entry, mime_type, validate_entry_name,
    validate_input_container, validate_xml, validate_xml_if_needed, CleanError, EntryCompression,
    EntryMeta, ErrorKind,
};

const CONTAINER: &[u8] = br#"<?xml version="1.0"?><container xmlns="urn:oasis:names:tc:opendocument:xmlns:container"><rootfiles><rootfile full-path="OEBPS/content.opf" media-type="application/oebps-package+xml"/></rootfiles></container>"#;

fn meta(name: &str, size: u64, stored: bool) -> EntryMeta {
    EntryMeta::new(name.to_string(), name.ends_with('/'), size, stored)
}

fn good_entries() -> Vec<EntryMeta> {
    vec![
        meta("mimetype", 20, true),
        meta("META-INF/container.xml", CONTAINER.len() as u64, false),
        meta("OEBPS/content.xhtml", 100, false),
    ]
}

fn message(result: Result<(), CleanError>) -> (ErrorKind, String) {
    let error = result.unwrap_err();
    (error.kind(), error.message())
}

#[test]
fn mime_type_is_exact() {
    assert_eq!(mime_type(), b"application/epub+zip".to_vec());
}

#[test]
fn valid_container_passes() {
    let mime = mime_type();
    assert!(validate_input_container(&good_entries(), &mime, Some(CONTAINER), 1024).is_ok());
}

#[test]
fn container_errors_in_order() {
    let mime = mime_type();
    assert_eq!(
        message(validate_input_container(&vec![], &mime, Some(CONTAINER), 1024)),
        (ErrorKind::InvalidEpub, "invalid EPUB: archive is empty".to_string())
    );
    let mut entries = good_entries();
    entries.swap(0, 1);
    assert_eq!(
        message(validate_input_container(&entries, &mime, Some(CONTAINER), 1024)),
        (ErrorKind::InvalidEpub, "invalid EPUB: mimetype must be the first ZIP entry".to_string())
    );
    let mut entries = good_entries();
    entries[0] = meta("mimetype", 20, false);
    assert_eq!(
        message(validate_input_container(&entries, &mime, Some(CONTAINER), 1024)),
        (ErrorKind::InvalidEpub, "invalid EPUB: mimetype must be stored and exact-length".to_string())
    );
    let mut entries = good_entries();
    entries[0] = meta("mimetype", 21, true);
    assert!(validate_input_container(&entries, &mime, Some(CONTAINER), 1024).is_err());
    assert_eq!(
        message(validate_input_container(&good_entries(), b"application/epub+zap", Some(CONTAINER), 1024)),
        (ErrorKind::InvalidEpub, "invalid EPUB: mimetype content is not application/epub+zip".to_string())
    );
    let mut entries = good_entries();
    entries.push(meta("OEBPS/../../evil", 1, false));
    assert_eq!(
        message(validate_input_container(&entries, &mime, Some(CONTAINER), 1024)),
        (ErrorKind::InvalidEpub, "invalid EPUB: unsafe ZIP entry name: \"OEBPS/../../evil\"".to_string())
    );
    let mut entries = good_entries();
    entries.push(meta("OEBPS/content.xhtml", 1, false));
    assert_eq!(
        message(validate_input_container(&entries, &mime, Some(CONTAINER), 1024)),
        (ErrorKind::InvalidEpub, "invalid EPUB: duplicate ZIP entry: OEBPS/content.xhtml".to_string())
    );
    let mut entries = good_entries();
    entries.push(meta("OEBPS/big.png", 1025, false));
    assert_eq!(
        message(validate_input_container(&entries, &mime, Some(CONTAINER), 1024)),
        (ErrorKind::EntryTooLarge, "entry exceeds configured safety limit: OEBPS/big.png".to_string())
    );
    assert_eq!(
        message(validate_input_container(&good_entries(), &mime, None, 1024)),
        (ErrorKind::MissingContainer, "EPUB is missing META-INF/container.xml".to_string())
    );
    let error = validate_input_container(&good_entries(), &mime, Some(b"<container><rootfiles></container>"), 1024)
        .unwrap_err();
    assert_eq!(error.kind(), ErrorKind::InvalidEpub);
    assert!(error.message().starts_with("invalid EPUB: malformed XML in META-INF/container.xml: "));
}

#[test]
fn entry_names_are_checked() {
    assert!(validate_entry_name(&meta("OEBPS/Text/ch1.xhtml", 1, false)).is_ok());
    assert!(validate_entry_name(&meta("a..b/c", 1, false)).is_ok());
    assert!(validate_entry_name(&meta("", 1, false)).is_err());
    assert!(validate_entry_name(&meta("..", 1, false)).is_err());
    assert!(validate_entry_name(&meta("a/../b", 1, false)).is_err());
    assert!(validate_entry_name(&meta("a/..", 1, false)).is_err());
    if std::path::Path::new("/etc/passwd").is_absolute() {
        let error = validate_entry_name(&meta("/etc/passwd", 1, false)).unwrap_err();
        assert_eq!(error.message(), "invalid EPUB: unsafe ZIP entry name: \"/etc/passwd\"");
    }
}

#[test]
fn entry_kinds_follow_extensions() {
    assert!(is_markup_entry("a/B.XHTML"));
    assert!(is_markup_entry("x.htm"));
    assert!(is_markup_entry("x.Html"));
    assert!(!is_markup_entry("x.xml"));
    assert!(is_xml_entry("content.OPF"));
    assert!(is_xml_entry("toc.ncx"));
    assert!(is_xml_entry("c.xhtml"));
    assert!(!is_xml_entry("c.html"));
    assert_eq!(compression_for("mimetype"), EntryCompression::Stored);
    assert_eq!(compression_for("MIMETYPE"), EntryCompression::Deflated);
    assert_eq!(compression_for("OEBPS/a.png"), EntryCompression::Deflated);
    assert!(is_epub_extension("EPUB"));
    assert!(!is_epub_extension("epub2"));
}

#[test]
fn xml_checks_report_the_document() {
    assert!(validate_xml(b"<a><b/></a>", "x.xml").is_ok());
    let error = validate_xml(b"<a></b>", "x.xml").unwrap_err();
    assert!(error.message().starts_with("invalid EPUB: malformed XML in x.xml: "));
    // XML names are checked in any case; HTML is not held to XML rules.
    let error = validate_xml_if_needed("OEBPS/C.XHTML", b"<a></b>").unwrap_err();
    assert_eq!(error.kind(), ErrorKind::InvalidEpub);
    assert!(validate_xml_if_needed("x.Opf", b"<a></b>").is_err());
    assert!(validate_xml_if_needed("x.html", b"<a></b>").is_ok());
    assert!(validate_xml_if_needed("x.ncx", b"<a></b>").is_err());
    assert!(validate_xml_if_needed("x.ncx", b"<a/>").is_ok());
}
