//! Conservative cleaning of EPUB books: external web links and advertising
//! containers are unwrapped from the XHTML/HTML documents (their text and
//! images kept), and the archive must meet the OCF container rules before
//! and after cleaning.
//!
//! The library holds the rules and the per-entry decisions; reading and
//! writing the ZIP archives is left to the caller.
pub mod ad_marker;
pub mod clean;
pub mod container;
pub mod entry;
pub mod errors;
pub mod href;
pub mod markup;
pub mod report;
pub mod text;
pub mod xml;

pub use ad_marker::is_ad_marker;
pub use clean::{clean_markup_entry, plan_entry, EntryPlan};
pub use container::{mime_type, validate_input_container};
pub use entry::{
    compression_for, is_epub_extension, is_markup_entry, is_xml_entry, validate_entry_name,
    EntryCompression, EntryMeta,
};
pub use errors::{CleanError, ErrorKind};
pub use href::{anchor_should_unwrap, is_external_href};
pub use markup::{container_should_unwrap, transform_markup};
pub use report::{CleanOptions, CleanReport, TransformStats};
pub use xml::{validate_xml, validate_xml_if_needed};
