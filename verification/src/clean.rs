//! The per-entry decisions of cleaning a book. The caller reads the archive
//! entry by entry, asks `plan_entry` what to do with each, and writes the
//! output archive accordingly.
use crate::container::{
    container_failure, entries_failure, entry_failure, is_duplicate, mime_type_bytes, mimetype_failure,
};
use crate::entry::{
    compression_of, is_markup_entry, is_markup_name, is_xhtml_entry, is_xhtml_name, is_xml_entry,
    is_xml_name, mimetype_name, name_is_safe, unsafe_name_failure, validate_entry_name,
    EntryCompression, EntryMeta,
};
use crate::errors::{invalid_epub, CleanError, ErrorKind};
use crate::markup::{rewritten, transform_markup};
use crate::text::{ends_with, lower_seq};
use crate::report::{saturated, CleanOptions, CleanReport, TransformStats};
use crate::xml::{
    quick_xml_root_scan, rewritten_xml_failure, root_scan, same_scan, validate_xml,
    validate_xml_if_needed, xml_failure,
};
use vstd::prelude::*;

verus! {

/// What is done with one input entry.
#[derive(Clone, Copy, Debug, PartialEq, Eq, Structural)]
pub enum EntryPlan {
    /// The first entry: written as `mimetype`, stored, with the fixed content.
    Mimetype,
    /// Markup: rewritten, checked, then written deflated.
    Markup,
    /// XML: checked, then copied deflated.
    Xml,
    /// A directory entry: added as a directory.
    Directory,
    /// Anything else (images, fonts, styles): copied unchanged, deflated.
    Copy,
}

/// The plan for the entry at `index`, once it has passed its checks.
pub open spec fn plan_of(index: int, entry: EntryMeta) -> EntryPlan {
    if index == 0 {
        EntryPlan::Mimetype
    } else if is_markup_name(entry.name@) && !entry.is_dir {
        EntryPlan::Markup
    } else if is_xml_name(entry.name@) && !entry.is_dir {
        EntryPlan::Xml
    } else if entry.is_dir {
        EntryPlan::Directory
    } else {
        EntryPlan::Copy
    }
}

/// The failure of the checks made on each entry while cleaning: a safe name
/// and a size within the limit.
pub open spec fn plan_failure(entry: EntryMeta, max_entry_bytes: u64) -> Option<(ErrorKind, Seq<char>)> {
    if !name_is_safe(entry.name@, entry.absolute) {
        Some(unsafe_name_failure(entry.name@))
    } else if entry.size > max_entry_bytes {
        Some((ErrorKind::EntryTooLarge, entry.name@))
    } else {
        None
    }
}

/// Checks the entry at `index` and decides what to do with it. An entry with
/// a safe name is counted in the report (its size added to `bytes_in`) before
/// its size is checked against the limit.
pub fn plan_entry(index: usize, entry: &EntryMeta, options: &CleanOptions, report: &mut CleanReport) -> (res: Result<EntryPlan, CleanError>)
    requires
        old(report).entries < usize::MAX,
    ensures
        match res {
            Ok(plan) => plan_failure(*entry, options.max_entry_bytes) is None && plan == plan_of(index as int, *entry),
            Err(e) => plan_failure(*entry, options.max_entry_bytes) == Some(e@),
        },
        name_is_safe(entry.name@, entry.absolute) ==> final(report).entries == old(report).entries + 1
            && final(report).bytes_in == saturated(old(report).bytes_in, entry.size),
        !name_is_safe(entry.name@, entry.absolute) ==> final(report).entries == old(report).entries
            && final(report).bytes_in == old(report).bytes_in,
        final(report).input == old(report).input,
        final(report).output == old(report).output,
        final(report).transformed_entries == old(report).transformed_entries,
        final(report).bytes_out == old(report).bytes_out,
        final(report).external_links_removed == old(report).external_links_removed,
        final(report).ad_containers_removed == old(report).ad_containers_removed,
{
    validate_entry_name(entry)?;
    report.record_entry(entry.size);
    if entry.size > options.max_entry_bytes {
        return Err(CleanError::EntryTooLarge(entry.name.clone()));
    }
    if index == 0 {
        return Ok(EntryPlan::Mimetype);
    }
    let name = entry.name.as_str();
    if is_markup_entry(name) && !entry.is_dir {
        Ok(EntryPlan::Markup)
    } else if is_xml_entry(name) && !entry.is_dir {
        Ok(EntryPlan::Xml)
    } else if entry.is_dir {
        Ok(EntryPlan::Directory)
    } else {
        Ok(EntryPlan::Copy)
    }
}

/// Every entry after the first that is not a directory is planned by the
/// suffix of its name, in any ASCII case: `.xhtml`, `.html` and `.htm` are
/// markup to rewrite; `.xml`, `.opf` and `.ncx` are XML to check before they
/// are copied.
pub proof fn lemma_plan_by_suffix(index: int, entry: EntryMeta)
    requires
        index > 0,
        !entry.is_dir,
    ensures
        ends_with(lower_seq(entry.name@), seq!['.', 'x', 'h', 't', 'm', 'l']) ==> plan_of(index, entry)
            == EntryPlan::Markup,
        ends_with(lower_seq(entry.name@), seq!['.', 'h', 't', 'm', 'l']) ==> plan_of(index, entry)
            == EntryPlan::Markup,
        ends_with(lower_seq(entry.name@), seq!['.', 'h', 't', 'm']) ==> plan_of(index, entry)
            == EntryPlan::Markup,
        ends_with(lower_seq(entry.name@), seq!['.', 'x', 'm', 'l']) ==> plan_of(index, entry)
            == EntryPlan::Xml,
        ends_with(lower_seq(entry.name@), seq!['.', 'o', 'p', 'f']) ==> plan_of(index, entry)
            == EntryPlan::Xml,
        ends_with(lower_seq(entry.name@), seq!['.', 'n', 'c', 'x']) ==> plan_of(index, entry)
            == EntryPlan::Xml,
{
    let l = lower_seq(entry.name@);
    let n = l.len() as int;
    if n >= 4 && (ends_with(l, seq!['.', 'x', 'm', 'l']) || ends_with(l, seq!['.', 'o', 'p', 'f'])
        || ends_with(l, seq!['.', 'n', 'c', 'x'])) {
        let last4 = l.subrange(n - 4, n);
        assert(last4[0] == l[n - 4]);
        assert(last4[3] == l[n - 1]);
        if ends_with(l, seq!['.', 'x', 'm', 'l']) {
            assert(l[n - 4] == '.');
        }
        if ends_with(l, seq!['.', 'o', 'p', 'f']) {
            assert(l[n - 1] == 'f');
        }
        if ends_with(l, seq!['.', 'n', 'c', 'x']) {
            assert(l[n - 1] == 'x');
        }
        if ends_with(l, seq!['.', 'x', 'h', 't', 'm', 'l']) {
            assert(l.subrange(n - 6, n)[2] == l[n - 4]);
            assert(l[n - 4] == 'h');
            assert(l[n - 1] == 'l');
        }
        if ends_with(l, seq!['.', 'h', 't', 'm', 'l']) {
            assert(l.subrange(n - 5, n)[1] == l[n - 4]);
            assert(l[n - 4] == 'h');
            assert(l[n - 1] == 'l');
        }
        if ends_with(l, seq!['.', 'h', 't', 'm']) {
            assert(l[n - 1] == 'm');
        }
        assert(!is_markup_name(entry.name@));
    }
}

/// An archive that passes the container rules has no two entries of the
/// same name.
pub proof fn lemma_valid_archive_names_are_distinct(
    entries: Seq<EntryMeta>,
    mimetype: Seq<u8>,
    container_xml: Option<Seq<u8>>,
    max_entry_bytes: u64,
)
    requires
        container_failure(entries, mimetype, container_xml, max_entry_bytes) is None,
    ensures
        forall|i: int, j: int|
            0 <= j < i < entries.len() ==> #[trigger] entries[i].name@ != #[trigger] entries[j].name@,
{
    lemma_no_first_failure(entries, entries.len() as int, max_entry_bytes);
    assert forall|i: int, j: int| 0 <= j < i < entries.len() implies #[trigger] entries[i].name@
        != #[trigger] entries[j].name@ by {
        assert(entry_failure(entries, i, max_entry_bytes) is None);
        assert(!is_duplicate(entries, i));
    }
}

/// The failure when rewriting changed what `quick_xml` reports of the root
/// element's default namespace (`xmlns`) in the XHTML document `name`.
pub open spec fn namespace_failure(name: Seq<char>) -> (ErrorKind, Seq<char>) {
    (ErrorKind::InvalidEpub, "root namespace changed in "@ + name)
}

/// The outcome of cleaning the markup entry `name` with content `content`:
/// the new content and the link and container counts, or the failure
/// (`None` standing for a failure of the rewriter, whose text is its own).
/// XHTML (`.xhtml` in any ASCII case) must be well-formed before rewriting,
/// and what `quick_xml` reports of its root element's `xmlns` attribute must
/// be the same before and after.
pub open spec fn markup_outcome(
    name: Seq<char>,
    content: Seq<u8>,
    remove_links: bool,
    remove_ads: bool,
) -> Result<(Seq<u8>, u64, u64), Option<(ErrorKind, Seq<char>)>> {
    if is_xhtml_name(name) && xml_failure(content, name) is Some {
        Err(xml_failure(content, name))
    } else {
        match rewritten(content, remove_links, remove_ads) {
            None => Err(None),
            Some((out, links, ads)) => {
                if rewritten_xml_failure(out, name) is Some {
                    Err(rewritten_xml_failure(out, name))
                } else if is_xhtml_name(name) && quick_xml_root_scan(content)
                    != quick_xml_root_scan(out) {
                    Err(Some(namespace_failure(name)))
                } else {
                    Ok((out, links, ads))
                }
            },
        }
    }
}

/// Cleans one markup entry: XHTML is checked first; the markup is rewritten
/// by the options; the result is checked as XML where its name says XML; and
/// XHTML must keep its root element's default namespace.
pub fn clean_markup_entry(name: &str, content: &[u8], options: &CleanOptions) -> (res: Result<(Vec<u8>, TransformStats), CleanError>)
    ensures
        match markup_outcome(name@, content@, options.remove_external_links, options.remove_ad_containers) {
            Ok((out, links, ads)) => res matches Ok((bytes, stats)) && bytes@ == out
                && stats.external_links_removed == links && stats.ad_containers_removed == ads,
            Err(Some(f)) => res matches Err(e) && e@ == f,
            Err(None) => res matches Err(e) && e@.0 == ErrorKind::Rewrite,
        },
        !options.remove_external_links && !options.remove_ad_containers ==> (res matches Ok((bytes, stats))
            ==> bytes@ == content@ && stats.external_links_removed == 0 && stats.ad_containers_removed == 0),
{
    let xhtml = is_xhtml_entry(name);
    if xhtml {
        validate_xml(content, name)?;
    }
    let mut out: Vec<u8> = Vec::new();
    let stats = transform_markup(content, &mut out, options)?;
    proof {
        assert(out@ =~= Seq::<u8>::empty() + out@);
    }
    validate_xml_if_needed(name, out.as_slice())?;
    if xhtml {
        let before = root_scan(content);
        let after = root_scan(out.as_slice());
        if !same_scan(&before, &after) {
            return Err(invalid_epub("root namespace changed in ", name));
        }
    }
    Ok((out, stats))
}

/// A markup entry is rewritten under the caller's own switches: once its
/// checks pass, the cleaned content and both counts are exactly what the
/// rewrite with `remove_links` and `remove_ads` gives, and a failing rewrite
/// fails the entry. In particular external links are removed whenever
/// `remove_links` is on, whatever `remove_ads` is.
pub proof fn lemma_markup_rewritten_by_own_switches(
    name: Seq<char>,
    content: Seq<u8>,
    remove_links: bool,
    remove_ads: bool,
)
    requires
        !is_xhtml_name(name) || xml_failure(content, name) is None,
    ensures
        match rewritten(content, remove_links, remove_ads) {
            None => markup_outcome(name, content, remove_links, remove_ads) is Err
                && markup_outcome(name, content, remove_links, remove_ads)->Err_0 is None,
            Some((out, links, ads)) => rewritten_xml_failure(out, name) is None && (!is_xhtml_name(name)
                || quick_xml_root_scan(content) == quick_xml_root_scan(out)) ==> markup_outcome(
                name,
                content,
                remove_links,
                remove_ads,
            ) == Ok::<(Seq<u8>, u64, u64), Option<(ErrorKind, Seq<char>)>>((out, links, ads)),
        },
        markup_outcome(name, content, remove_links, remove_ads) matches Ok((out, links, ads))
            ==> rewritten(content, remove_links, remove_ads) == Some((out, links, ads)),
{
}

/// When no entry among the first `n` fails the per-entry rules, none of them
/// does.
proof fn lemma_no_first_failure(entries: Seq<EntryMeta>, n: int, max_entry_bytes: u64)
    requires
        entries_failure(entries, n, max_entry_bytes) is None,
    ensures
        forall|i: int| 0 <= i < n ==> #[trigger] entry_failure(entries, i, max_entry_bytes) is None,
    decreases n,
{
    if n > 0 {
        lemma_no_first_failure(entries, n - 1, max_entry_bytes);
    }
}

/// An archive that passes the container rules passes the checks made on each
/// entry while it is cleaned with the same size limit: planning never fails
/// on it.
pub proof fn lemma_valid_archive_plans_cleanly(
    entries: Seq<EntryMeta>,
    mimetype: Seq<u8>,
    container_xml: Option<Seq<u8>>,
    max_entry_bytes: u64,
)
    requires
        container_failure(entries, mimetype, container_xml, max_entry_bytes) is None,
    ensures
        forall|i: int| 0 <= i < entries.len() ==> #[trigger] plan_failure(entries[i], max_entry_bytes) is None,
{
    lemma_no_first_failure(entries, entries.len() as int, max_entry_bytes);
    assert forall|i: int| 0 <= i < entries.len() implies #[trigger] plan_failure(entries[i], max_entry_bytes)
        is None by {
        assert(entry_failure(entries, i, max_entry_bytes) is None);
    }
}

/// The entry that cleaning writes first (for the entry planned as
/// `Mimetype`): named `mimetype`, compressed as `compression_of` says for that
/// name, holding `mime_type_bytes()`. Such an entry passes the `mimetype`
/// rules of the output check.
pub proof fn lemma_written_mimetype_passes(entries: Seq<EntryMeta>)
    requires
        entries.len() > 0,
        entries[0].name@ == mimetype_name(),
        entries[0].stored == (compression_of(mimetype_name()) == EntryCompression::Stored),
        entries[0].size == mime_type_bytes().len(),
    ensures
        mimetype_failure(entries, mime_type_bytes()) is None,
        plan_of(0, entries[0]) == EntryPlan::Mimetype,
{
}

/// When every one of the first `n` entries passes the per-entry rules, the
/// first `n` entries have no failure.
proof fn lemma_all_entries_pass(entries: Seq<EntryMeta>, n: int, max_entry_bytes: u64)
    requires
        n <= entries.len(),
        forall|i: int| 0 <= i < n ==> #[trigger] entry_failure(entries, i, max_entry_bytes) is None,
    ensures
        entries_failure(entries, n, max_entry_bytes) is None,
    decreases n,
{
    if n > 0 {
        lemma_all_entries_pass(entries, n - 1, max_entry_bytes);
    }
}

/// The descriptions of the entries that cleaning writes for `entries`, where
/// `sizes[i]` is the number of bytes written for entry `i`: the first entry
/// becomes a stored `mimetype` holding `mime_type_bytes()`; a directory is
/// written stored and empty; every other entry keeps its name and is
/// compressed as `compression_of` says.
pub open spec fn planned_output(entries: Seq<EntryMeta>, sizes: Seq<u64>) -> Seq<EntryMeta> {
    Seq::new(
        entries.len(),
        |i: int|
            {
                let e = entries[i];
                if i == 0 {
                    EntryMeta { name: e.name, is_dir: false, size: 20, stored: true, absolute: e.absolute }
                } else if e.is_dir {
                    EntryMeta { name: e.name, is_dir: true, size: 0, stored: true, absolute: e.absolute }
                } else {
                    EntryMeta {
                        name: e.name,
                        is_dir: false,
                        size: sizes[i],
                        stored: compression_of(e.name@) == EntryCompression::Stored,
                        absolute: e.absolute,
                    }
                }
            },
    )
}

/// The cleaned copy of a valid book is valid: if the input meets the
/// container rules and every file written after `mimetype` stays within the
/// size limit, the planned output meets the same rules with the same
/// `META-INF/container.xml` (an XML entry, copied unchanged).
pub proof fn lemma_valid_input_gives_valid_output(
    entries: Seq<EntryMeta>,
    mimetype: Seq<u8>,
    container_xml: Option<Seq<u8>>,
    max_entry_bytes: u64,
    sizes: Seq<u64>,
)
    requires
        container_failure(entries, mimetype, container_xml, max_entry_bytes) is None,
        sizes.len() == entries.len(),
        forall|i: int| 0 < i < entries.len() && !entries[i].is_dir ==> sizes[i] <= max_entry_bytes,
    ensures
        container_failure(planned_output(entries, sizes), mime_type_bytes(), container_xml, max_entry_bytes)
            is None,
{
    let out = planned_output(entries, sizes);
    let n = entries.len() as int;
    lemma_no_first_failure(entries, n, max_entry_bytes);
    assert(entry_failure(entries, 0, max_entry_bytes) is None);
    assert(mimetype_failure(out, mime_type_bytes()) is None);
    assert forall|i: int| 0 <= i < n implies #[trigger] entry_failure(out, i, max_entry_bytes) is None by {
        assert(entry_failure(entries, i, max_entry_bytes) is None);
        assert(out[i].name == entries[i].name);
        if is_duplicate(out, i) {
            let j = choose|j: int| 0 <= j < i && #[trigger] out[j].name@ == out[i].name@;
            assert(out[j].name == entries[j].name);
            assert(entries[j].name@ == entries[i].name@);
        }
    }
    lemma_all_entries_pass(out, n, max_entry_bytes);
}

} // verus!
