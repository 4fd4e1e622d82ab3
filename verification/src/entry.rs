//! Archive entries: their descriptions, name safety, and how each kind of
//! entry is treated.
use crate::errors::{invalid_epub, CleanError, ErrorKind};
use crate::text::{chars_of, ends_with, ends_with_chars, lower_seq, run_equals};
use std::path::Path;
use vstd::prelude::*;

verus! {

/// What the cleaning rules read of one archive entry.
#[derive(Debug)]
pub struct EntryMeta {
    /// The entry's name inside the archive.
    pub name: String,
    /// Whether the entry is a directory.
    pub is_dir: bool,
    /// The uncompressed size in bytes.
    pub size: u64,
    /// Whether the entry is stored without compression.
    pub stored: bool,
    /// Whether the platform's path rules call the name absolute.
    pub absolute: bool,
}

/// `std::path::Path::is_absolute` on the entry name. What is absolute depends
/// on the platform (a leading `/` on Unix, a drive or share prefix with a root
/// on Windows), so nothing is stated of the result.
#[verifier::external_body]
fn path_is_absolute(name: &str) -> bool {
    Path::new(name).is_absolute()
}

impl EntryMeta {
    /// Describes an entry; whether its name is an absolute path is asked of
    /// the platform's path rules.
    pub fn new(name: String, is_dir: bool, size: u64, stored: bool) -> (res: Self)
        ensures
            res.name == name,
            res.is_dir == is_dir,
            res.size == size,
            res.stored == stored,
    {
        let absolute = path_is_absolute(name.as_str());
        EntryMeta { name, is_dir, size, stored, absolute }
    }
}

/// `s[i..j]` is one `/`-separated segment of `s`.
pub open spec fn is_segment(s: Seq<char>, i: int, j: int) -> bool {
    &&& 0 <= i <= j <= s.len()
    &&& i == 0 || s[i - 1] == '/'
    &&& j == s.len() || s[j] == '/'
    &&& forall|k: int| i <= k < j ==> #[trigger] s[k] != '/'
}

/// Some `/`-separated segment of `s` is `..`.
pub open spec fn has_parent_segment(s: Seq<char>) -> bool {
    exists|i: int, j: int| #[trigger] is_segment(s, i, j) && s.subrange(i, j) == seq!['.', '.']
}

/// A name that may be written into the output: not empty, not absolute, and
/// with no `..` segment.
pub open spec fn name_is_safe(name: Seq<char>, absolute: bool) -> bool {
    name.len() > 0 && !absolute && !has_parent_segment(name)
}

/// Whether some `/`-separated segment of `name` is `..`.
pub fn names_parent(name: &str) -> (res: bool)
    ensures
        res == has_parent_segment(name@),
{
    let v = chars_of(name);
    let n = v.len();
    let mut start: usize = 0;
    let mut k: usize = 0;
    while k < n
        invariant
            n == v@.len(),
            v@ == name@,
            start <= k <= n,
            start == 0 || v@[start - 1] == '/',
            forall|m: int| start <= m < k ==> #[trigger] v@[m] != '/',
            forall|i: int, j: int|
                #[trigger] is_segment(v@, i, j) && j < k ==> v@.subrange(i, j) != seq!['.', '.'],
        decreases n - k,
    {
        if v[k] == '/' {
            proof {
                assert(is_segment(v@, start as int, k as int));
                assert forall|i: int, j: int| #[trigger] is_segment(v@, i, j) && j == k implies i
                    == start by {
                    if i < start {
                        assert(v@[start - 1] != '/');
                    }
                    if i > start {
                        assert(v@[i - 1] != '/');
                    }
                }
            }
            if run_equals(&v, start, k, &['.', '.'], false) {
                return true;
            }
            start = k + 1;
        }
        k = k + 1;
    }
    proof {
        assert(is_segment(v@, start as int, n as int));
        assert forall|i: int, j: int| #[trigger] is_segment(v@, i, j) && j == n implies i
            == start by {
            if i < start {
                assert(v@[start - 1] != '/');
            }
            if i > start {
                assert(v@[i - 1] != '/');
            }
        }
    }
    run_equals(&v, start, n, &['.', '.'], false)
}

/// The `Debug` rendering of a string (quoted and escaped), as `format!("{:?}")`
/// produces it.
pub uninterp spec fn debug_text(s: Seq<char>) -> Seq<char>;

/// `format!("{:?}", s)`: the `Debug` rendering of a string.
#[verifier::external_body]
fn debug_quoted(s: &str) -> (res: String)
    ensures
        res@ == debug_text(s@),
{
    format!("{:?}", s)
}

/// The error for an unsafe entry name.
pub open spec fn unsafe_name_failure(name: Seq<char>) -> (ErrorKind, Seq<char>) {
    (ErrorKind::InvalidEpub, "unsafe ZIP entry name: "@ + debug_text(name))
}

/// Refuses an entry name that is empty, absolute (by `absolute`, the
/// platform's judgement) or has a `..` segment.
pub fn check_entry_name(name: &str, absolute: bool) -> (res: Result<(), CleanError>)
    ensures
        res is Ok <==> name_is_safe(name@, absolute),
        res matches Err(e) ==> e@ == unsafe_name_failure(name@),
{
    if name.is_empty() || absolute || names_parent(name) {
        proof {
            if name.is_empty() {
                assert(name@.len() == 0);
            }
        }
        let quoted = debug_quoted(name);
        Err(invalid_epub("unsafe ZIP entry name: ", quoted.as_str()))
    } else {
        Ok(())
    }
}

/// Refuses an entry whose name is empty, absolute or has a `..` segment.
pub fn validate_entry_name(entry: &EntryMeta) -> (res: Result<(), CleanError>)
    ensures
        res is Ok <==> name_is_safe(entry.name@, entry.absolute),
        res matches Err(e) ==> e@ == unsafe_name_failure(entry.name@),
{
    check_entry_name(entry.name.as_str(), entry.absolute)
}

/// `.xhtml`, `.html` or `.htm`, in any ASCII case: markup that is rewritten.
pub open spec fn is_markup_name(name: Seq<char>) -> bool {
    let l = lower_seq(name);
    ends_with(l, seq!['.', 'x', 'h', 't', 'm', 'l']) || ends_with(l, seq!['.', 'h', 't', 'm', 'l'])
        || ends_with(l, seq!['.', 'h', 't', 'm'])
}

/// `.xml`, `.opf`, `.ncx` or `.xhtml`, in any ASCII case: XML that is checked.
pub open spec fn is_xml_name(name: Seq<char>) -> bool {
    let l = lower_seq(name);
    ends_with(l, seq!['.', 'x', 'm', 'l']) || ends_with(l, seq!['.', 'o', 'p', 'f']) || ends_with(
        l,
        seq!['.', 'n', 'c', 'x'],
    ) || ends_with(l, seq!['.', 'x', 'h', 't', 'm', 'l'])
}

/// `.xhtml` in any ASCII case: XHTML, checked before and after rewriting.
pub open spec fn is_xhtml_name(name: Seq<char>) -> bool {
    ends_with(lower_seq(name), seq!['.', 'x', 'h', 't', 'm', 'l'])
}

/// Whether the entry is markup to rewrite.
pub fn is_markup_entry(name: &str) -> (res: bool)
    ensures
        res == is_markup_name(name@),
{
    let v = chars_of(name);
    ends_with_chars(&v, &['.', 'x', 'h', 't', 'm', 'l'], true) || ends_with_chars(
        &v,
        &['.', 'h', 't', 'm', 'l'],
        true,
    ) || ends_with_chars(&v, &['.', 'h', 't', 'm'], true)
}

/// Whether the entry is XML to check for well-formedness.
pub fn is_xml_entry(name: &str) -> (res: bool)
    ensures
        res == is_xml_name(name@),
{
    let v = chars_of(name);
    ends_with_chars(&v, &['.', 'x', 'm', 'l'], true) || ends_with_chars(&v, &['.', 'o', 'p', 'f'], true)
        || ends_with_chars(&v, &['.', 'n', 'c', 'x'], true) || ends_with_chars(
        &v,
        &['.', 'x', 'h', 't', 'm', 'l'],
        true,
    )
}

/// Whether the entry is XHTML, which is checked before and after rewriting.
pub fn is_xhtml_entry(name: &str) -> (res: bool)
    ensures
        res == is_xhtml_name(name@),
{
    let v = chars_of(name);
    ends_with_chars(&v, &['.', 'x', 'h', 't', 'm', 'l'], true)
}

/// The name of the entry that must come first.
pub open spec fn mimetype_name() -> Seq<char> {
    seq!['m', 'i', 'm', 'e', 't', 'y', 'p', 'e']
}

/// How an output entry is compressed.
#[derive(Clone, Copy, Debug, PartialEq, Eq, Structural)]
pub enum EntryCompression {
    Stored,
    Deflated,
}

/// Whether `name` is `mimetype`.
pub fn is_mimetype_name(name: &str) -> (res: bool)
    ensures
        res == (name@ == mimetype_name()),
{
    let v = chars_of(name);
    let r = run_equals(&v, 0, v.len(), &['m', 'i', 'm', 'e', 't', 'y', 'p', 'e'], false);
    proof {
        assert(v@.subrange(0, v@.len() as int) =~= v@);
    }
    r
}

/// How an output entry of this name is compressed: `mimetype` is stored,
/// everything else deflated.
pub open spec fn compression_of(name: Seq<char>) -> EntryCompression {
    if name == mimetype_name() {
        EntryCompression::Stored
    } else {
        EntryCompression::Deflated
    }
}

/// The compression of an output entry: `mimetype` is stored, everything
/// else deflated.
pub fn compression_for(name: &str) -> (res: EntryCompression)
    ensures
        res == compression_of(name@),
{
    if is_mimetype_name(name) {
        EntryCompression::Stored
    } else {
        EntryCompression::Deflated
    }
}

/// Whether a file extension names an EPUB (`epub` in any ASCII case).
pub fn is_epub_extension(extension: &str) -> (res: bool)
    ensures
        res == (lower_seq(extension@) == seq!['e', 'p', 'u', 'b']),
{
    let v = chars_of(extension);
    let r = run_equals(&v, 0, v.len(), &['e', 'p', 'u', 'b'], true);
    proof {
        assert(v@.subrange(0, v@.len() as int) =~= v@);
    }
    r
}

} // verus!
