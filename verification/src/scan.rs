//! Scan state machine: the begin/rescan/end lifecycle of one scan handle.
//! A handle is created without bound keys, may have its keys rebound any
//! number of times, and once ended accepts no further operation.

use vstd::prelude::*;

verus! {

/// Phase of a scan handle's lifecycle.
#[derive(Clone, Copy, Debug, PartialEq, Eq, Structural)]
pub enum ScanPhase {
    /// Opened, no keys bound yet.
    Created,
    /// Keys bound, ready to return matches.
    Active,
    /// Released; the handle accepts no further operation.
    Ended,
}

/// An operation was attempted on a handle that was already ended.
#[derive(Clone, Copy, Debug, PartialEq, Eq, Structural)]
pub struct ScanEnded;

/// A scan handle: the per-scan state this access method keeps between the
/// host's begin, rescan and end calls.
pub struct ScanState {
    /// Number of key columns the scan was opened for.
    pub nkeys: usize,
    /// Number of order-by operators the scan was opened for.
    pub norderbys: usize,
    /// The currently bound predicate keys, none before the first rescan.
    pub keys: Option<Vec<i64>>,
    /// Lifecycle phase of the handle.
    pub phase: ScanPhase,
}

/// Opens a scan handle sized for the declared key and order-by counts,
/// with no key values bound yet.
pub fn dibeginscan(nkeys: usize, norderbys: usize) -> (s: ScanState)
    ensures
        s.nkeys == nkeys,
        s.norderbys == norderbys,
        s.keys is None,
        s.phase == ScanPhase::Created,
{
    ScanState { nkeys, norderbys, keys: None, phase: ScanPhase::Created }
}

/// Rebinds the scan's predicate keys for reuse of the same handle. An ended
/// handle is rejected and left unchanged, so no operation on it is
/// observable.
pub fn direscan(s: &mut ScanState, keys: Vec<i64>) -> (r: Result<(), ScanEnded>)
    requires
        keys@.len() == old(s).nkeys,
    ensures
        rescan_step(*old(s), *final(s), r),
        old(s).phase == ScanPhase::Ended ==> r is Err && *final(s) == *old(s),
        old(s).phase != ScanPhase::Ended ==> {
            &&& r is Ok
            &&& final(s).phase == ScanPhase::Active
            &&& final(s).keys == Some(keys)
            &&& final(s).nkeys == old(s).nkeys
            &&& final(s).norderbys == old(s).norderbys
        },
{
    match s.phase {
        ScanPhase::Ended => Err(ScanEnded),
        _ => {
            s.keys = Some(keys);
            s.phase = ScanPhase::Active;
            Ok(())
        },
    }
}

/// Releases the handle. Ending an already ended handle is rejected and
/// changes nothing, so a second end is not observable.
pub fn diendscan(s: &mut ScanState) -> (r: Result<(), ScanEnded>)
    ensures
        endscan_step(*old(s), *final(s), r),
        old(s).phase == ScanPhase::Ended ==> r is Err && *final(s) == *old(s),
        old(s).phase != ScanPhase::Ended ==> {
            &&& r is Ok
            &&& final(s).phase == ScanPhase::Ended
            &&& final(s).nkeys == old(s).nkeys
            &&& final(s).norderbys == old(s).norderbys
            &&& final(s).keys == old(s).keys
        },
{
    match s.phase {
        ScanPhase::Ended => Err(ScanEnded),
        _ => {
            s.phase = ScanPhase::Ended;
            Ok(())
        },
    }
}

/// Law: once a handle is ended, neither a rescan nor a second end changes
/// it, and both are rejected; this holds of every handle, whatever sequence
/// of operations produced it.
pub proof fn lemma_no_operation_after_end(s: ScanState)
    requires
        s.phase == ScanPhase::Ended,
    ensures
        forall|t: ScanState, r: Result<(), ScanEnded>|
            rescan_step(s, t, r) ==> t == s && r is Err,
        forall|t: ScanState, r: Result<(), ScanEnded>|
            endscan_step(s, t, r) ==> t == s && r is Err,
{
}

/// The state transition `direscan` makes from `pre` to `post` with result
/// `r`, as a relation.
pub open spec fn rescan_step(pre: ScanState, post: ScanState, r: Result<(), ScanEnded>) -> bool {
    if pre.phase == ScanPhase::Ended {
        post == pre && r is Err
    } else {
        &&& r is Ok
        &&& post.phase == ScanPhase::Active
        &&& post.keys is Some
        &&& post.nkeys == pre.nkeys
        &&& post.norderbys == pre.norderbys
    }
}

/// The state transition `diendscan` makes from `pre` to `post` with result
/// `r`, as a relation.
pub open spec fn endscan_step(pre: ScanState, post: ScanState, r: Result<(), ScanEnded>) -> bool {
    if pre.phase == ScanPhase::Ended {
        post == pre && r is Err
    } else {
        &&& r is Ok
        &&& post.phase == ScanPhase::Ended
        &&& post.nkeys == pre.nkeys
        &&& post.norderbys == pre.norderbys
        &&& post.keys == pre.keys
    }
}

} // verus!
