//! The OCF container rules that an EPUB archive must meet, before cleaning
//! and again on the cleaned output.
use crate::entry::{
    mimetype_name, name_is_safe, unsafe_name_failure, validate_entry_name, is_mimetype_name, EntryMeta,
};
use crate::errors::{invalid_epub, CleanError, ErrorKind};
use crate::xml::{validate_xml, xml_failure};
use vstd::prelude::*;

verus! {

/// The bytes of `application/epub+zip`, the only content `mimetype` may have.
pub open spec fn mime_type_bytes() -> Seq<u8> {
    seq![
        97u8, 112u8, 112u8, 108u8, 105u8, 99u8, 97u8, 116u8, 105u8, 111u8, 110u8, 47u8, 101u8,
        112u8, 117u8, 98u8, 43u8, 122u8, 105u8, 112u8,
    ]
}

/// The content of the `mimetype` entry: `application/epub+zip`.
pub fn mime_type() -> (res: Vec<u8>)
    ensures
        res@ == mime_type_bytes(),
{
    let res = vec![
        97u8, 112u8, 112u8, 108u8, 105u8, 99u8, 97u8, 116u8, 105u8, 111u8, 110u8, 47u8, 101u8,
        112u8, 117u8, 98u8, 43u8, 122u8, 105u8, 112u8,
    ];
    proof {
        assert(res@ =~= mime_type_bytes());
    }
    res
}

/// The name of the container document.
pub open spec fn container_xml_name() -> Seq<char> {
    "META-INF/container.xml"@
}

/// The failure of the rules on the description of the first entry: it must
/// exist, be named `mimetype`, be stored and have the length of
/// `application/epub+zip`.
pub open spec fn first_entry_failure(entries: Seq<EntryMeta>) -> Option<(ErrorKind, Seq<char>)> {
    if entries.len() == 0 {
        Some((ErrorKind::InvalidEpub, "archive is empty"@))
    } else if entries[0].name@ != mimetype_name() {
        Some((ErrorKind::InvalidEpub, "mimetype must be the first ZIP entry"@))
    } else if !entries[0].stored || entries[0].size != mime_type_bytes().len() {
        Some((ErrorKind::InvalidEpub, "mimetype must be stored and exact-length"@))
    } else {
        None
    }
}

/// The rule on the first entry reads only that entry: checking the
/// description of the first entry alone gives the same result as checking
/// the descriptions of all entries.
pub proof fn lemma_first_entry_rule_reads_first_only(entries: Seq<EntryMeta>)
    ensures
        first_entry_failure(entries) == first_entry_failure(entries.take(if entries.len() > 0 { 1 } else { 0 })),
{
}

/// The failure of the rule on the content of `mimetype`.
pub open spec fn mimetype_content_failure(mimetype: Seq<u8>) -> Option<(ErrorKind, Seq<char>)> {
    if mimetype != mime_type_bytes() {
        Some((ErrorKind::InvalidEpub, "mimetype content is not application/epub+zip"@))
    } else {
        None
    }
}

/// The failure of the rules on the first entry, `mimetype`, whose content
/// (read up to the entry size limit) is `mimetype`.
pub open spec fn mimetype_failure(entries: Seq<EntryMeta>, mimetype: Seq<u8>) -> Option<(ErrorKind, Seq<char>)> {
    match first_entry_failure(entries) {
        Some(f) => Some(f),
        None => mimetype_content_failure(mimetype),
    }
}

/// Some entry before index `i` has the same name as entry `i`.
pub open spec fn is_duplicate(entries: Seq<EntryMeta>, i: int) -> bool {
    exists|j: int| 0 <= j < i && #[trigger] entries[j].name@ == entries[i].name@
}

/// The failure of the per-entry rules on entry `i`: a safe name, no earlier
/// entry of the same name, and a size within the limit.
pub open spec fn entry_failure(entries: Seq<EntryMeta>, i: int, max_entry_bytes: u64) -> Option<(ErrorKind, Seq<char>)> {
    let e = entries[i];
    if !name_is_safe(e.name@, e.absolute) {
        Some(unsafe_name_failure(e.name@))
    } else if is_duplicate(entries, i) {
        Some((ErrorKind::InvalidEpub, "duplicate ZIP entry: "@ + e.name@))
    } else if e.size > max_entry_bytes {
        Some((ErrorKind::EntryTooLarge, e.name@))
    } else {
        None
    }
}

/// The first failure of the per-entry rules among the first `n` entries.
pub open spec fn entries_failure(entries: Seq<EntryMeta>, n: int, max_entry_bytes: u64) -> Option<(ErrorKind, Seq<char>)>
    decreases n,
{
    if n <= 0 {
        None
    } else {
        match entries_failure(entries, n - 1, max_entry_bytes) {
            Some(f) => Some(f),
            None => entry_failure(entries, n - 1, max_entry_bytes),
        }
    }
}

/// The bytes of an optional document.
pub open spec fn bytes_of(data: Option<&[u8]>) -> Option<Seq<u8>> {
    match data {
        Some(d) => Some(d@),
        None => None,
    }
}

/// Once the first `n` entries have a failure, every longer prefix has the
/// same first failure.
pub proof fn lemma_first_failure_persists(entries: Seq<EntryMeta>, n: int, m: int, max_entry_bytes: u64)
    requires
        n <= m,
        entries_failure(entries, n, max_entry_bytes) is Some,
    ensures
        entries_failure(entries, m, max_entry_bytes) == entries_failure(entries, n, max_entry_bytes),
    decreases m - n,
{
    if n < m {
        lemma_first_failure_persists(entries, n, m - 1, max_entry_bytes);
    }
}

/// The failure of the rule on `META-INF/container.xml`: it must exist and be
/// well-formed XML.
pub open spec fn container_document_failure(container_xml: Option<Seq<u8>>) -> Option<(ErrorKind, Seq<char>)> {
    match container_xml {
        None => Some((ErrorKind::MissingContainer, Seq::empty())),
        Some(data) => xml_failure(data, container_xml_name()),
    }
}

/// The first failure of the container rules, in the order they are checked:
/// the `mimetype` entry, then each entry, then the container document.
pub open spec fn container_failure(
    entries: Seq<EntryMeta>,
    mimetype: Seq<u8>,
    container_xml: Option<Seq<u8>>,
    max_entry_bytes: u64,
) -> Option<(ErrorKind, Seq<char>)> {
    match mimetype_failure(entries, mimetype) {
        Some(f) => Some(f),
        None => match entries_failure(entries, entries.len() as int, max_entry_bytes) {
            Some(f) => Some(f),
            None => container_document_failure(container_xml),
        },
    }
}

fn bytes_equal(a: &[u8], b: &[u8]) -> (res: bool)
    ensures
        res == (a@ == b@),
{
    if a.len() != b.len() {
        return false;
    }
    let mut k: usize = 0;
    while k < a.len()
        invariant
            a@.len() == b@.len(),
            k <= a@.len(),
            forall|m: int| 0 <= m < k ==> a@[m] == b@[m],
        decreases a.len() - k,
    {
        if a[k] != b[k] {
            return false;
        }
        k = k + 1;
    }
    proof {
        assert(a@ =~= b@);
    }
    true
}

/// Checks the rules on the description of the first entry. Its content is
/// read only after this check passes.
pub fn check_first_entry(entries: &Vec<EntryMeta>) -> (res: Result<(), CleanError>)
    ensures
        match res {
            Ok(_) => first_entry_failure(entries@) is None,
            Err(e) => first_entry_failure(entries@) == Some(e@),
        },
{
    if entries.len() == 0 {
        return Err(CleanError::InvalidEpub(String::from_str("archive is empty")));
    }
    let first = &entries[0];
    if !is_mimetype_name(first.name.as_str()) {
        return Err(CleanError::InvalidEpub(String::from_str("mimetype must be the first ZIP entry")));
    }
    if !first.stored || first.size != 20 {
        return Err(CleanError::InvalidEpub(String::from_str("mimetype must be stored and exact-length")));
    }
    Ok(())
}

/// Checks the content of `mimetype`.
pub fn check_mimetype_content(mimetype: &[u8]) -> (res: Result<(), CleanError>)
    ensures
        match res {
            Ok(_) => mimetype_content_failure(mimetype@) is None,
            Err(e) => mimetype_content_failure(mimetype@) == Some(e@),
        },
{
    let expected = mime_type();
    if !bytes_equal(mimetype, expected.as_slice()) {
        return Err(
            CleanError::InvalidEpub(String::from_str("mimetype content is not application/epub+zip")),
        );
    }
    Ok(())
}

/// Checks the rules on the first entry and the content of `mimetype`.
pub fn check_mimetype(entries: &Vec<EntryMeta>, mimetype: &[u8]) -> (res: Result<(), CleanError>)
    ensures
        match res {
            Ok(_) => mimetype_failure(entries@, mimetype@) is None,
            Err(e) => mimetype_failure(entries@, mimetype@) == Some(e@),
        },
{
    check_first_entry(entries)?;
    check_mimetype_content(mimetype)
}

/// Whether some entry before index `i` has the same name as entry `i`.
fn has_earlier_name(entries: &Vec<EntryMeta>, i: usize) -> (res: bool)
    requires
        i < entries@.len(),
    ensures
        res == is_duplicate(entries@, i as int),
{
    let mut j: usize = 0;
    while j < i
        invariant
            i < entries@.len(),
            j <= i,
            forall|m: int| 0 <= m < j ==> #[trigger] entries@[m].name@ != entries@[i as int].name@,
        decreases i - j,
    {
        if entries[j].name.eq(&entries[i].name) {
            return true;
        }
        j = j + 1;
    }
    false
}

/// Checks the per-entry rules on entry `i`.
pub fn check_entry(entries: &Vec<EntryMeta>, i: usize, max_entry_bytes: u64) -> (res: Result<(), CleanError>)
    requires
        i < entries@.len(),
    ensures
        match res {
            Ok(_) => entry_failure(entries@, i as int, max_entry_bytes) is None,
            Err(e) => entry_failure(entries@, i as int, max_entry_bytes) == Some(e@),
        },
{
    let entry = &entries[i];
    validate_entry_name(entry)?;
    if has_earlier_name(entries, i) {
        return Err(invalid_epub("duplicate ZIP entry: ", entry.name.as_str()));
    }
    if entry.size > max_entry_bytes {
        return Err(CleanError::EntryTooLarge(entry.name.clone()));
    }
    Ok(())
}

/// Checks the per-entry rules on every entry, in order.
pub fn check_entries(entries: &Vec<EntryMeta>, max_entry_bytes: u64) -> (res: Result<(), CleanError>)
    ensures
        match res {
            Ok(_) => entries_failure(entries@, entries@.len() as int, max_entry_bytes) is None,
            Err(e) => entries_failure(entries@, entries@.len() as int, max_entry_bytes) == Some(e@),
        },
{
    let mut i: usize = 0;
    while i < entries.len()
        invariant
            i <= entries@.len(),
            entries_failure(entries@, i as int, max_entry_bytes) is None,
        decreases entries.len() - i,
    {
        match check_entry(entries, i, max_entry_bytes) {
            Ok(_) => {},
            Err(e) => {
                proof {
                    lemma_first_failure_persists(entries@, i + 1, entries@.len() as int, max_entry_bytes);
                }
                return Err(e);
            },
        }
        i = i + 1;
    }
    Ok(())
}

/// Checks that `container_xml`, the content of `META-INF/container.xml`,
/// exists and is well-formed.
pub fn check_container_document(container_xml: Option<&[u8]>) -> (res: Result<(), CleanError>)
    ensures
        match res {
            Ok(_) => container_document_failure(bytes_of(container_xml)) is None,
            Err(e) => container_document_failure(bytes_of(container_xml)) == Some(e@),
        },
{
    match container_xml {
        None => Err(CleanError::MissingContainer),
        Some(data) => validate_xml(data, "META-INF/container.xml"),
    }
}

/// Checks the OCF container rules on an archive, in this order:
/// `check_first_entry`, `check_mimetype_content`, `check_entries`,
/// `check_container_document` (a caller that reads contents lazily calls
/// them one by one, reading `mimetype` after the first and
/// `META-INF/container.xml` after the third). `entries` describes its
/// entries in order, `mimetype` is the content of the first entry read up to
/// `max_entry_bytes`, and `container_xml` is the content of
/// `META-INF/container.xml` where the archive has that entry.
pub fn validate_input_container(
    entries: &Vec<EntryMeta>,
    mimetype: &[u8],
    container_xml: Option<&[u8]>,
    max_entry_bytes: u64,
) -> (res: Result<(), CleanError>)
    ensures
        match res {
            Ok(_) => container_failure(entries@, mimetype@, bytes_of(container_xml), max_entry_bytes) is None,
            Err(e) => container_failure(entries@, mimetype@, bytes_of(container_xml), max_entry_bytes)
                == Some(e@),
        },
{
    check_mimetype(entries, mimetype)?;
    check_entries(entries, max_entry_bytes)?;
    check_container_document(container_xml)
}

} // verus!
