//! Well-formedness checks of XML documents, read with `quick_xml`.
use crate::entry::{is_xml_entry, is_xml_name};
use crate::errors::{joined, CleanError, ErrorKind};
use quick_xml::events::Event;
use quick_xml::Reader;
use vstd::prelude::*;

verus! {

/// The message of the first error that `quick_xml::Reader` (default
/// configuration) reports while reading `data` event by event to the end;
/// `None` when it reaches the end without error.
pub uninterp spec fn quick_xml_error(data: Seq<u8>) -> Option<Seq<char>>;

/// Reads `data` with `quick_xml::Reader::read_event` until the end of input
/// and returns the `Display` text of the first error, if any.
#[verifier::external_body]
fn first_xml_error(data: &[u8]) -> (res: Option<String>)
    ensures
        res.deep_view() == quick_xml_error(data@),
{
    let mut reader = Reader::from_reader(data);
    loop {
        match reader.read_event() {
            Ok(Event::Eof) => return None,
            Ok(_) => {},
            Err(error) => return Some(error.to_string()),
        }
    }
}

/// The failure for the XML document `name` whose reading reported `error`.
pub open spec fn xml_failure_for(name: Seq<char>, error: Option<Seq<char>>) -> Option<(ErrorKind, Seq<char>)> {
    match error {
        None => None,
        Some(e) => Some((ErrorKind::InvalidEpub, "malformed XML in "@ + name + ": "@ + e)),
    }
}

/// The failure of checking `data`, the XML document `name`.
pub open spec fn xml_failure(data: Seq<u8>, name: Seq<char>) -> Option<(ErrorKind, Seq<char>)> {
    xml_failure_for(name, quick_xml_error(data))
}

/// Turns the first error reported while reading the XML document `name` into
/// the result of checking it.
pub fn xml_check_result(name: &str, error: Option<String>) -> (res: Result<(), CleanError>)
    ensures
        match res {
            Ok(_) => xml_failure_for(name@, error.deep_view()) is None,
            Err(e) => xml_failure_for(name@, error.deep_view()) == Some(e@),
        },
{
    match error {
        None => Ok(()),
        Some(text) => {
            let head = joined("malformed XML in ", name);
            let head = joined(head.as_str(), ": ");
            Err(CleanError::InvalidEpub(joined(head.as_str(), text.as_str())))
        },
    }
}

/// Checks that `data`, the document `name`, is well-formed XML.
pub fn validate_xml(data: &[u8], name: &str) -> (res: Result<(), CleanError>)
    ensures
        match res {
            Ok(_) => xml_failure(data@, name@) is None,
            Err(e) => xml_failure(data@, name@) == Some(e@),
        },
{
    let error = first_xml_error(data);
    xml_check_result(name, error)
}

/// The failure of checking rewritten markup: names ending in `.xml`, `.opf`,
/// `.ncx` or `.xhtml` (in any ASCII case) are checked as XML.
pub open spec fn rewritten_xml_failure(data: Seq<u8>, name: Seq<char>) -> Option<(ErrorKind, Seq<char>)> {
    if is_xml_name(name) {
        xml_failure(data, name)
    } else {
        None
    }
}

/// Checks rewritten markup that is named as XML (`.xml`, `.opf`, `.ncx` or
/// `.xhtml`, in any ASCII case); other names pass unchecked.
pub fn validate_xml_if_needed(name: &str, data: &[u8]) -> (res: Result<(), CleanError>)
    ensures
        match res {
            Ok(_) => rewritten_xml_failure(data@, name@) is None,
            Err(e) => rewritten_xml_failure(data@, name@) == Some(e@),
        },
{
    if is_xml_entry(name) {
        validate_xml(data, name)
    } else {
        Ok(())
    }
}

/// What reading a document up to its first element reports of that
/// element's `xmlns` attribute.
#[derive(Debug)]
pub enum RootScan<S> {
    /// The document ends before any element.
    NoElement,
    /// Reading failed before the first element; the text is the error.
    ReadError(S),
    /// The first element's attributes could not be read; the text is the error.
    AttributeError(S),
    /// The raw value of the first element's `xmlns` attribute, if it has one.
    Namespace(Option<S>),
}

impl View for RootScan<String> {
    type V = RootScan<Seq<char>>;

    open spec fn view(&self) -> RootScan<Seq<char>> {
        match self {
            RootScan::NoElement => RootScan::NoElement,
            RootScan::ReadError(e) => RootScan::ReadError(e@),
            RootScan::AttributeError(e) => RootScan::AttributeError(e@),
            RootScan::Namespace(v) => RootScan::Namespace(v.deep_view()),
        }
    }
}

/// What `quick_xml::Reader` (default configuration), reading `data` event by
/// event, reports at the first start or empty element tag: the result of
/// `try_get_attribute("xmlns")` on it (the attribute's raw value, or the
/// `Display` text of its error); or the `Display` text of a reading error
/// before any such tag; or that the input ends first.
pub uninterp spec fn quick_xml_root_scan(data: Seq<u8>) -> RootScan<Seq<char>>;

/// Reads `data` with `quick_xml` up to the first start or empty element tag
/// and hands back what it reports of that element's `xmlns` attribute.
#[verifier::external_body]
fn first_element_xmlns(data: &[u8]) -> (res: RootScan<String>)
    ensures
        res@ == quick_xml_root_scan(data@),
{
    let mut reader = Reader::from_reader(data);
    loop {
        match reader.read_event() {
            Ok(Event::Start(tag)) | Ok(Event::Empty(tag)) => return match tag.try_get_attribute("xmlns") {
                Ok(found) => RootScan::Namespace(found.map(|a| a.value.into_owned())),
                Err(error) => RootScan::AttributeError(error.to_string()),
            },
            Ok(Event::Eof) => return RootScan::NoElement,
            Err(error) => return RootScan::ReadError(error.to_string()),
            Ok(_) => {},
        }
    }
}

/// What `quick_xml` reports of the root element's default namespace.
pub fn root_scan(data: &[u8]) -> (res: RootScan<String>)
    ensures
        res@ == quick_xml_root_scan(data@),
{
    first_element_xmlns(data)
}

/// Whether two reports on the root element are the same.
pub fn same_scan(a: &RootScan<String>, b: &RootScan<String>) -> (res: bool)
    ensures
        res == (a@ == b@),
{
    match (a, b) {
        (RootScan::NoElement, RootScan::NoElement) => true,
        (RootScan::ReadError(x), RootScan::ReadError(y)) => x.eq(y),
        (RootScan::AttributeError(x), RootScan::AttributeError(y)) => x.eq(y),
        (RootScan::Namespace(x), RootScan::Namespace(y)) => same_text(x, y),
        _ => false,
    }
}

/// Whether two optional strings are equal.
pub fn same_text(a: &Option<String>, b: &Option<String>) -> (res: bool)
    ensures
        res == (a.deep_view() == b.deep_view()),
{
    match (a, b) {
        (Some(x), Some(y)) => x.eq(y),
        (None, None) => true,
        _ => false,
    }
}

} // verus!
