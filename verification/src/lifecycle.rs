//! Lifecycle callbacks: build, insert, bulk-delete and vacuum-cleanup of an
//! index instance. This access method is a degenerate backend that stores no
//! entries, so builds report zero counts, inserts store nothing, and the
//! vacuum passes have nothing to change.

use vstd::prelude::*;

verus! {

/// The state this access method keeps for one index relation.
pub struct IndexState {
    /// Number of entries the index stores.
    pub entries: u64,
}

impl IndexState {
    /// The backend stores no entries: its index is always empty.
    pub open spec fn wf(self) -> bool {
        self.entries == 0
    }
}

/// The two-field summary a build returns to the host.
#[derive(Clone, Copy, Debug, PartialEq, Eq, Structural)]
pub struct IndexBuildResult {
    /// Heap tuples scanned by the build.
    pub heap_tuples: u64,
    /// Index tuples written by the build.
    pub index_tuples: u64,
}

/// The statistics accumulator the host threads through the vacuum passes.
#[derive(Clone, Copy, Debug, PartialEq, Eq, Structural)]
pub struct IndexBulkDeleteResult {
    /// Pages of the index.
    pub num_pages: u64,
    /// Entries the index still holds.
    pub num_index_tuples: u64,
    /// Entries removed by the pass.
    pub tuples_removed: u64,
}

/// Uniqueness-check mode the host requests of an insert.
#[derive(Clone, Copy, Debug, PartialEq, Eq, Structural)]
pub enum IndexUniqueCheck {
    /// No uniqueness check.
    No,
    /// Check uniqueness at insert.
    Yes,
    /// Check uniqueness later; insert provisionally.
    Partial,
    /// The tuple already exists; check only.
    Existing,
}

/// Builds a new index over existing heap contents. This backend defers all
/// work, so the new index is empty and the counts are zero: never a
/// partially populated index reported as success.
pub fn dibuild() -> (r: (IndexState, IndexBuildResult))
    ensures
        r.0.wf(),
        r.1.heap_tuples == 0,
        r.1.index_tuples == 0,
{
    (IndexState { entries: 0 }, IndexBuildResult { heap_tuples: 0, index_tuples: 0 })
}

/// Builds the crash-safe empty index of the initialization fork: a valid,
/// empty index usable after a crash restart with no heap re-scan.
pub fn dibuildempty() -> (r: IndexState)
    ensures
        r.wf(),
{
    IndexState { entries: 0 }
}

/// Adds one heap tuple's values to the index. This backend stores nothing
/// and enforces no uniqueness, so the index is unchanged and the tuple is
/// never reported as a duplicate.
pub fn diinsert(
    index: &mut IndexState,
    values: &Vec<i64>,
    isnull: &Vec<bool>,
    heap_tid: u64,
    check_unique: IndexUniqueCheck,
) -> (duplicate: bool)
    requires
        old(index).wf(),
    ensures
        !duplicate,
        *final(index) == *old(index),
{
    let _ = values;
    let _ = isnull;
    let _ = heap_tid;
    let _ = check_unique;
    false
}

/// Bulk-deletes index entries pointing at dead tuples. An empty index has
/// no entries pointing anywhere, so no physical change is needed and the
/// pass hands nothing on to the cleanup: a null result, which is valid only
/// because the index stores no entries.
pub fn dibulkdelete(index: &IndexState, stats: Option<IndexBulkDeleteResult>) -> (r: Option<
    IndexBulkDeleteResult,
>)
    requires
        index.wf(),
    ensures
        r is None,
{
    let _ = stats;
    None
}

/// Post-vacuum cleanup. The bulk-delete pass of this backend modifies
/// nothing, so returning null is correct here; it would be a bug after any
/// modification.
pub fn divacuumcleanup(index: &IndexState, stats: Option<IndexBulkDeleteResult>) -> (r: Option<
    IndexBulkDeleteResult,
>)
    requires
        index.wf(),
    ensures
        r is None,
{
    let _ = stats;
    None
}

/// Law: on an index with zero entries, a bulk-delete followed by a
/// vacuum-cleanup returns null from both passes, whatever accumulator the
/// host threads through.
pub proof fn lemma_empty_vacuum_returns_null(
    index: IndexState,
    first: Option<IndexBulkDeleteResult>,
    second: Option<IndexBulkDeleteResult>,
)
    requires
        index.entries == 0,
        bulkdelete_result(index, first),
        vacuumcleanup_result(index, second),
    ensures
        first is None,
        second is None,
{
}

/// What `dibulkdelete` returns on a well-formed index, as a relation.
pub open spec fn bulkdelete_result(index: IndexState, r: Option<IndexBulkDeleteResult>) -> bool {
    index.wf() ==> r is None
}

/// What `divacuumcleanup` returns on a well-formed index, as a relation.
pub open spec fn vacuumcleanup_result(index: IndexState, r: Option<IndexBulkDeleteResult>) -> bool {
    index.wf() ==> r is None
}

} // verus!
