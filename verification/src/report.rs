//! Cleaning options and the per-book report.
use vstd::prelude::*;

verus! {

/// The cleaning policy.
#[derive(Debug, Clone, Copy)]
pub struct CleanOptions {
    /// Unwrap anchors whose `href` is an external web link.
    pub remove_external_links: bool,
    /// Unwrap containers whose `id` or `class` holds an advertising token.
    pub remove_ad_containers: bool,
    /// The largest uncompressed size accepted for one archive entry.
    pub max_entry_bytes: u64,
}

/// One mebibyte.
pub const MIB: u64 = 1048576;

/// The default entry size limit: 256 MiB.
pub const DEFAULT_MAX_ENTRY_BYTES: u64 = 268435456;

impl Default for CleanOptions {
    fn default() -> (res: Self)
        ensures
            res.remove_external_links,
            res.remove_ad_containers,
            res.max_entry_bytes == 256 * MIB,
    {
        CleanOptions {
            remove_external_links: true,
            remove_ad_containers: true,
            max_entry_bytes: DEFAULT_MAX_ENTRY_BYTES,
        }
    }
}

impl CleanOptions {
    /// The options that the command-line switches select: each `keep_*`
    /// switch turns its removal off, and the limit is given in MiB, the
    /// product saturating at `u64::MAX`.
    pub fn from_switches(keep_external_links: bool, keep_ad_containers: bool, max_entry_mib: u64) -> (res: Self)
        ensures
            res.remove_external_links == !keep_external_links,
            res.remove_ad_containers == !keep_ad_containers,
            res.max_entry_bytes == if max_entry_mib * MIB <= u64::MAX {
                max_entry_mib * MIB
            } else {
                u64::MAX as int
            },
    {
        let limit = if max_entry_mib <= u64::MAX / MIB {
            proof {
                assert(max_entry_mib * MIB <= u64::MAX) by (nonlinear_arith)
                    requires
                        max_entry_mib <= u64::MAX / MIB,
                        MIB == 1048576,
                ;
            }
            max_entry_mib * MIB
        } else {
            proof {
                assert(max_entry_mib * MIB > u64::MAX) by (nonlinear_arith)
                    requires
                        max_entry_mib > u64::MAX / MIB,
                        MIB == 1048576,
                ;
            }
            u64::MAX
        };
        CleanOptions {
            remove_external_links: !keep_external_links,
            remove_ad_containers: !keep_ad_containers,
            max_entry_bytes: limit,
        }
    }
}

/// What the markup rewriter removed from one document.
#[derive(Debug, Clone, Copy)]
pub struct TransformStats {
    pub external_links_removed: u64,
    pub ad_containers_removed: u64,
}

impl Default for TransformStats {
    fn default() -> (res: Self)
        ensures
            res.external_links_removed == 0,
            res.ad_containers_removed == 0,
    {
        TransformStats { external_links_removed: 0, ad_containers_removed: 0 }
    }
}

/// The result of cleaning one book.
#[derive(Debug, Clone)]
pub struct CleanReport {
    pub input: String,
    pub output: String,
    pub entries: usize,
    pub transformed_entries: usize,
    pub bytes_in: u64,
    pub bytes_out: u64,
    pub external_links_removed: u64,
    pub ad_containers_removed: u64,
}

/// `a + b`, or `u64::MAX` where the sum does not fit.
pub open spec fn saturated(a: u64, b: u64) -> u64 {
    if a + b <= u64::MAX {
        (a + b) as u64
    } else {
        u64::MAX
    }
}

/// The report's counters, in field order.
pub open spec fn counters(r: CleanReport) -> (usize, usize, u64, u64, u64, u64) {
    (
        r.entries,
        r.transformed_entries,
        r.bytes_in,
        r.bytes_out,
        r.external_links_removed,
        r.ad_containers_removed,
    )
}

impl Default for CleanReport {
    fn default() -> (res: Self)
        ensures
            res.input@ == Seq::<char>::empty(),
            res.output@ == Seq::<char>::empty(),
            counters(res) == (0usize, 0usize, 0u64, 0u64, 0u64, 0u64),
    {
        CleanReport::new(String::new(), String::new())
    }
}

impl CleanReport {
    /// A report for cleaning `input` into `output`, with every counter zero.
    pub fn new(input: String, output: String) -> (res: Self)
        ensures
            res.input == input,
            res.output == output,
            counters(res) == (0usize, 0usize, 0u64, 0u64, 0u64, 0u64),
    {
        CleanReport {
            input,
            output,
            entries: 0,
            transformed_entries: 0,
            bytes_in: 0,
            bytes_out: 0,
            external_links_removed: 0,
            ad_containers_removed: 0,
        }
    }

    /// Counts one more input entry of `size` uncompressed bytes.
    pub fn record_entry(&mut self, size: u64)
        requires
            old(self).entries < usize::MAX,
        ensures
            final(self).entries == old(self).entries + 1,
            final(self).bytes_in == saturated(old(self).bytes_in, size),
            final(self).input == old(self).input,
            final(self).output == old(self).output,
            final(self).transformed_entries == old(self).transformed_entries,
            final(self).bytes_out == old(self).bytes_out,
            final(self).external_links_removed == old(self).external_links_removed,
            final(self).ad_containers_removed == old(self).ad_containers_removed,
    {
        self.entries = self.entries + 1;
        self.bytes_in = self.bytes_in.saturating_add(size);
    }

    /// Counts `written` more output bytes.
    pub fn record_written(&mut self, written: u64)
        ensures
            final(self).bytes_out == saturated(old(self).bytes_out, written),
            final(self).input == old(self).input,
            final(self).output == old(self).output,
            final(self).entries == old(self).entries,
            final(self).transformed_entries == old(self).transformed_entries,
            final(self).bytes_in == old(self).bytes_in,
            final(self).external_links_removed == old(self).external_links_removed,
            final(self).ad_containers_removed == old(self).ad_containers_removed,
    {
        self.bytes_out = self.bytes_out.saturating_add(written);
    }

    /// Whether `record_transformed(stats)` can count `stats` without overflow.
    pub open spec fn can_record(&self, stats: TransformStats) -> bool {
        &&& self.transformed_entries < usize::MAX
        &&& self.external_links_removed + stats.external_links_removed <= u64::MAX
        &&& self.ad_containers_removed + stats.ad_containers_removed <= u64::MAX
    }

    /// Whether `record_transformed(stats)` can count `stats` without overflow.
    pub fn has_room_for(&self, stats: &TransformStats) -> (res: bool)
        ensures
            res == self.can_record(*stats),
    {
        self.transformed_entries < usize::MAX && stats.external_links_removed <= u64::MAX
            - self.external_links_removed && stats.ad_containers_removed <= u64::MAX
            - self.ad_containers_removed
    }

    /// Counts one more rewritten markup entry and what was removed from it.
    pub fn record_transformed(&mut self, stats: &TransformStats)
        requires
            old(self).can_record(*stats),
        ensures
            final(self).transformed_entries == old(self).transformed_entries + 1,
            final(self).external_links_removed == old(self).external_links_removed
                + stats.external_links_removed,
            final(self).ad_containers_removed == old(self).ad_containers_removed
                + stats.ad_containers_removed,
            final(self).input == old(self).input,
            final(self).output == old(self).output,
            final(self).entries == old(self).entries,
            final(self).bytes_in == old(self).bytes_in,
            final(self).bytes_out == old(self).bytes_out,
    {
        self.transformed_entries = self.transformed_entries + 1;
        self.external_links_removed = self.external_links_removed + stats.external_links_removed;
        self.ad_containers_removed = self.ad_containers_removed + stats.ad_containers_removed;
    }
}

} // verus!
