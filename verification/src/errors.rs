//! The library's error type.
use vstd::prelude::*;

verus! {

/// What went wrong, without the detail text.
#[derive(Clone, Copy, Debug, PartialEq, Eq, Structural)]
pub enum ErrorKind {
    InvalidEpub,
    EntryTooLarge,
    MissingContainer,
    Rewrite,
}

/// Why an EPUB could not be cleaned.
#[derive(Debug, Clone)]
pub enum CleanError {
    /// The archive breaks an OCF rule or holds malformed XML; the text says which.
    InvalidEpub(String),
    /// The entry with this name is larger than the configured limit.
    EntryTooLarge(String),
    /// The archive has no `META-INF/container.xml`.
    MissingContainer,
    /// The markup rewriter failed; the text is its message.
    Rewrite(String),
}

impl View for CleanError {
    type V = (ErrorKind, Seq<char>);

    open spec fn view(&self) -> (ErrorKind, Seq<char>) {
        match self {
            CleanError::InvalidEpub(s) => (ErrorKind::InvalidEpub, s@),
            CleanError::EntryTooLarge(s) => (ErrorKind::EntryTooLarge, s@),
            CleanError::MissingContainer => (ErrorKind::MissingContainer, Seq::empty()),
            CleanError::Rewrite(s) => (ErrorKind::Rewrite, s@),
        }
    }
}

/// The error view of a result, `None` for success.
pub open spec fn failure_of<T>(r: Result<T, CleanError>) -> Option<(ErrorKind, Seq<char>)> {
    match r {
        Ok(_) => None,
        Err(e) => Some(e@),
    }
}

/// `head` followed by `tail`, as a new `String`.
pub fn joined(head: &str, tail: &str) -> (res: String)
    ensures
        res@ == head@ + tail@,
{
    let mut res = String::from_str(head);
    res.append(tail);
    res
}

/// An `InvalidEpub` error whose text is `head` followed by `tail`.
pub fn invalid_epub(head: &str, tail: &str) -> (res: CleanError)
    ensures
        res@ == (ErrorKind::InvalidEpub, head@ + tail@),
{
    CleanError::InvalidEpub(joined(head, tail))
}

impl CleanError {
    /// The kind of failure.
    pub fn kind(&self) -> (res: ErrorKind)
        ensures
            res == self@.0,
    {
        match self {
            CleanError::InvalidEpub(_) => ErrorKind::InvalidEpub,
            CleanError::EntryTooLarge(_) => ErrorKind::EntryTooLarge,
            CleanError::MissingContainer => ErrorKind::MissingContainer,
            CleanError::Rewrite(_) => ErrorKind::Rewrite,
        }
    }

    /// The human-readable message of this error.
    pub fn message(&self) -> (res: String)
        ensures
            res@ == match self {
                CleanError::InvalidEpub(s) => "invalid EPUB: "@ + s@,
                CleanError::EntryTooLarge(s) => "entry exceeds configured safety limit: "@ + s@,
                CleanError::MissingContainer => "EPUB is missing META-INF/container.xml"@,
                CleanError::Rewrite(s) => s@,
            },
    {
        match self {
            CleanError::InvalidEpub(s) => joined("invalid EPUB: ", s.as_str()),
            CleanError::EntryTooLarge(s) => joined("entry exceeds configured safety limit: ", s.as_str()),
            CleanError::MissingContainer => String::from_str("EPUB is missing META-INF/container.xml"),
            CleanError::Rewrite(s) => s.clone(),
        }
    }
}

} // verus!
