//! Retention of working files: which entries of a directory are old enough
//! to delete, and what deleting them frees.
use vstd::prelude::*;
use vstd::string::*;
use crate::text::{decimal_text, u64_text};

verus! {

/// What a sweep found and freed.
#[derive(Debug, Clone, Copy, PartialEq, Eq)]
pub struct CleanupStats {
    pub files_cleaned: u32,
    pub bytes_freed: u64,
}

impl CleanupStats {
    /// A one-line summary of the counts.
    pub fn describe(&self) -> (r: String)
        ensures
            r@ == "CleanupStats(files="@ + decimal_text(self.files_cleaned as nat) + ", bytes="@
                + decimal_text(self.bytes_freed as nat) + ")"@,
    {
        String::from_str("CleanupStats(files=").concat(
            u64_text(self.files_cleaned as u64).as_str(),
        ).concat(", bytes=").concat(u64_text(self.bytes_freed).as_str()).concat(")")
    }
}

/// One direct entry of the swept directory.
#[derive(Debug, Clone, Copy)]
pub struct SweepEntry {
    /// Whether the entry is a regular file.
    pub is_file: bool,
    /// Time since its last modification, in nanoseconds; `None` where the
    /// system does not know it. A time in the future counts as zero.
    pub age_nanos: Option<u128>,
    /// Its size in bytes.
    pub size: u64,
}

/// The oldest age, in nanoseconds, that a file may have to be kept.
pub open spec fn max_age_nanos(max_age_hours: u64) -> nat {
    max_age_hours as nat * 3_600_000_000_000
}

/// Whether the sweep deletes `e`: a regular file older than the cutoff.
pub open spec fn expired(e: SweepEntry, max_age_hours: u64) -> bool {
    e.is_file && e.age_nanos is Some && e.age_nanos->0 > max_age_nanos(max_age_hours)
}

/// The positions, in order, of the expired entries among the first `n`.
pub open spec fn expired_upto(entries: Seq<SweepEntry>, max_age_hours: u64, n: int) -> Seq<usize>
    decreases n,
{
    if n <= 0 {
        seq![]
    } else if expired(entries[n - 1], max_age_hours) {
        expired_upto(entries, max_age_hours, n - 1).push((n - 1) as usize)
    } else {
        expired_upto(entries, max_age_hours, n - 1)
    }
}

/// The bytes of the expired entries among the first `n`.
pub open spec fn freed_upto(entries: Seq<SweepEntry>, max_age_hours: u64, n: int) -> nat
    decreases n,
{
    if n <= 0 {
        0
    } else if expired(entries[n - 1], max_age_hours) {
        freed_upto(entries, max_age_hours, n - 1) + entries[n - 1].size as nat
    } else {
        freed_upto(entries, max_age_hours, n - 1)
    }
}

/// What a sweep is to delete, and the statistics it reports once done.
#[derive(Debug, Clone)]
pub struct CleanupPlan {
    /// Positions of the entries to delete, in order.
    pub remove: Vec<usize>,
    pub stats: CleanupStats,
}

/// Plans a sweep of a directory with the given entries: every regular file
/// older than `max_age_hours` is deleted and counted with its size (the byte
/// count stops at `u64::MAX`); other entries stay.
pub fn plan_cleanup(entries: &Vec<SweepEntry>, max_age_hours: u64) -> (r: CleanupPlan)
    requires
        entries.len() <= u32::MAX,
    ensures
        r.remove@ == expired_upto(entries@, max_age_hours, entries.len() as int),
        r.stats.files_cleaned == r.remove.len(),
        r.stats.bytes_freed as nat == if freed_upto(entries@, max_age_hours, entries.len() as int)
            <= u64::MAX {
            freed_upto(entries@, max_age_hours, entries.len() as int)
        } else {
            u64::MAX as nat
        },
{
    let limit: u128 = max_age_hours as u128 * 3_600_000_000_000u128;
    let mut remove: Vec<usize> = Vec::new();
    let mut bytes: u64 = 0;
    let mut i: usize = 0;
    while i < entries.len()
        invariant
            i <= entries.len() <= u32::MAX,
            limit == max_age_nanos(max_age_hours),
            remove@ == expired_upto(entries@, max_age_hours, i as int),
            remove.len() <= i,
            bytes as nat == if freed_upto(entries@, max_age_hours, i as int) <= u64::MAX {
                freed_upto(entries@, max_age_hours, i as int)
            } else {
                u64::MAX as nat
            },
        decreases entries.len() - i,
    {
        let e = &entries[i];
        let old_age = match e.age_nanos {
            Some(a) => a > limit,
            None => false,
        };
        if e.is_file && old_age {
            remove.push(i);
            bytes = bytes.saturating_add(e.size);
        }
        i += 1;
    }
    let files_cleaned = remove.len() as u32;
    CleanupPlan { remove, stats: CleanupStats { files_cleaned, bytes_freed: bytes } }
}

/// A sweep deletes exactly the regular files older than the cutoff: an entry
/// is among those planned for removal if and only if it is such a file, so
/// newer files and other entries (subdirectories among them) stay.
pub proof fn lemma_sweep_removes_exactly_expired(
    entries: Seq<SweepEntry>,
    max_age_hours: u64,
    n: int,
)
    requires
        0 <= n <= entries.len(),
        entries.len() <= usize::MAX,
    ensures
        forall|i: int|
            0 <= i < n ==> (expired_upto(entries, max_age_hours, n).contains(i as usize) <==> expired(
                #[trigger] entries[i],
                max_age_hours,
            )),
        forall|k: int|
            0 <= k < expired_upto(entries, max_age_hours, n).len() ==> #[trigger] expired_upto(
                entries,
                max_age_hours,
                n,
            )[k] < n,
    decreases n,
{
    if n > 0 {
        lemma_sweep_removes_exactly_expired(entries, max_age_hours, n - 1);
        let prev = expired_upto(entries, max_age_hours, n - 1);
        assert forall|i: int| 0 <= i < n implies (expired_upto(
            entries,
            max_age_hours,
            n,
        ).contains(i as usize) <==> expired(#[trigger] entries[i], max_age_hours)) by {
            if i < n - 1 {
                if expired(entries[n - 1], max_age_hours) {
                    let cur = prev.push((n - 1) as usize);
                    if cur.contains(i as usize) {
                        let k = choose|k: int| 0 <= k < cur.len() && cur[k] == i as usize;
                        if k < prev.len() {
                            assert(prev.contains(i as usize));
                        }
                    }
                    if prev.contains(i as usize) {
                        let k = choose|k: int| 0 <= k < prev.len() && prev[k] == i as usize;
                        assert(cur[k] == i as usize);
                    }
                }
            } else {
                if expired(entries[n - 1], max_age_hours) {
                    let cur = prev.push((n - 1) as usize);
                    assert(cur[cur.len() - 1] == (n - 1) as usize);
                } else {
                    if prev.contains(i as usize) {
                        let k = choose|k: int| 0 <= k < prev.len() && prev[k] == i as usize;
                        assert(prev[k] < n - 1);
                    }
                }
            }
        }
    }
}

} // verus!
