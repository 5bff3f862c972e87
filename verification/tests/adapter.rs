//! Tests of the capability table, the scan state machine, the lifecycle
//! callbacks, the cost estimate and the option-kind registration.

use fulon_am::capability::{divalidate, fulon_filter, CallbackSlot};
use fulon_am::estimate::dicostestimate;
use fulon_am::lifecycle::{
    dibuild, dibuildempty, dibulkdelete, diinsert, divacuumcleanup, IndexBulkDeleteResult,
    IndexUniqueCheck,
};
use fulon_am::registry::{create_reloptions_table, register_option_kind, LockMode, OptionKindRegistry};
use fulon_am::scan::{dibeginscan, diendscan, direscan, ScanPhase};

#[test]
fn capability_table_is_fully_populated() {
    let am = fulon_filter();
    assert_eq!(am.amstrategies, 0);
    assert_eq!(am.amsupport, 1);
    assert_eq!(am.amoptsprocnum, 0);
    assert!(!am.amcanorder);
    assert!(!am.amcanorderbyop);
    assert!(!am.amcanbackward);
    assert!(!am.amcanunique);
    assert!(!am.amcanmulticol);
    assert!(!am.amoptionalkey);
    assert!(!am.amsearcharray);
    assert!(!am.amsearchnulls);
    assert!(!am.amstorage);
    assert!(!am.amclusterable);
    assert!(!am.ampredlocks);
    assert!(!am.amcanparallel);
    assert!(!am.amcaninclude);
    assert!(!am.amusemaintenanceworkmem);
    assert_eq!(am.amkeytype, 0);
    assert_eq!(am.amparallelvacuumoptions, 0);
}

#[test]
fn required_slots_present_unsupported_slots_absent() {
    let am = fulon_filter();
    // Required of every access method.
    assert_eq!(am.ambuild, CallbackSlot::Present);
    assert_eq!(am.ambuildempty, CallbackSlot::Present);
    assert_eq!(am.aminsert, CallbackSlot::Present);
    assert_eq!(am.ambulkdelete, CallbackSlot::Present);
    assert_eq!(am.amvacuumcleanup, CallbackSlot::Present);
    assert_eq!(am.amcostestimate, CallbackSlot::Present);
    assert_eq!(am.amoptions, CallbackSlot::Present);
    assert_eq!(am.amvalidate, CallbackSlot::Present);
    assert_eq!(am.ambeginscan, CallbackSlot::Present);
    assert_eq!(am.amrescan, CallbackSlot::Present);
    assert_eq!(am.amendscan, CallbackSlot::Present);
    // Capabilities this adapter does not advertise: slots explicitly absent.
    assert_eq!(am.amcanreturn, CallbackSlot::Absent);
    assert_eq!(am.amproperty, CallbackSlot::Absent);
    assert_eq!(am.ambuildphasename, CallbackSlot::Absent);
    assert_eq!(am.amgettuple, CallbackSlot::Absent);
    assert_eq!(am.amgetbitmap, CallbackSlot::Absent);
    assert_eq!(am.ammarkpos, CallbackSlot::Absent);
    assert_eq!(am.amrestrpos, CallbackSlot::Absent);
    assert_eq!(am.amestimateparallelscan, CallbackSlot::Absent);
    assert_eq!(am.aminitparallelscan, CallbackSlot::Absent);
    assert_eq!(am.amparallelrescan, CallbackSlot::Absent);
}

#[test]
fn validator_accepts_any_operator_class() {
    assert!(divalidate(0));
    assert!(divalidate(12345));
}

#[test]
fn scan_lifecycle_begin_rescan_end() {
    let mut s = dibeginscan(2, 0);
    assert_eq!(s.phase, ScanPhase::Created);
    assert_eq!(s.nkeys, 2);
    assert_eq!(s.norderbys, 0);
    assert!(s.keys.is_none());
    assert!(direscan(&mut s, vec![4, 9]).is_ok());
    assert_eq!(s.phase, ScanPhase::Active);
    assert_eq!(s.keys, Some(vec![4, 9]));
    assert!(direscan(&mut s, vec![5, 1]).is_ok());
    assert_eq!(s.keys, Some(vec![5, 1]));
    assert!(diendscan(&mut s).is_ok());
    assert_eq!(s.phase, ScanPhase::Ended);
}

#[test]
fn ending_a_scan_twice_is_rejected() {
    let mut s = dibeginscan(0, 0);
    assert!(diendscan(&mut s).is_ok());
    assert!(diendscan(&mut s).is_err());
    assert_eq!(s.phase, ScanPhase::Ended);
}

#[test]
fn no_operation_after_end_is_observable() {
    let mut s = dibeginscan(1, 3);
    assert!(direscan(&mut s, vec![7]).is_ok());
    assert!(diendscan(&mut s).is_ok());
    let before_keys = s.keys.clone();
    assert!(direscan(&mut s, vec![8]).is_err());
    assert!(diendscan(&mut s).is_err());
    assert_eq!(s.phase, ScanPhase::Ended);
    assert_eq!(s.keys, before_keys);
    assert_eq!(s.nkeys, 1);
    assert_eq!(s.norderbys, 3);
}

#[test]
fn build_returns_zero_counts_and_an_empty_index() {
    let (index, result) = dibuild();
    assert_eq!(index.entries, 0);
    assert_eq!(result.heap_tuples, 0);
    assert_eq!(result.index_tuples, 0);
    let empty = dibuildempty();
    assert_eq!(empty.entries, 0);
}

#[test]
fn insert_stores_nothing_and_reports_no_duplicate() {
    let (mut index, _) = dibuild();
    let dup = diinsert(
        &mut index,
        &vec![42],
        &vec![false],
        7,
        IndexUniqueCheck::No,
    );
    assert!(!dup);
    assert_eq!(index.entries, 0);
    let dup2 = diinsert(&mut index, &vec![42], &vec![false], 7, IndexUniqueCheck::Yes);
    assert!(!dup2);
    assert_eq!(index.entries, 0);
}

#[test]
fn vacuum_passes_return_null_on_an_empty_index() {
    let (index, _) = dibuild();
    let stats = dibulkdelete(&index, None);
    assert!(stats.is_none());
    let cleaned = divacuumcleanup(&index, stats);
    assert!(cleaned.is_none());
    // Whatever accumulator the host threads through, the answer is null.
    let seeded = IndexBulkDeleteResult { num_pages: 3, num_index_tuples: 0, tuples_removed: 0 };
    assert!(dibulkdelete(&index, Some(seeded)).is_none());
    assert!(divacuumcleanup(&index, Some(seeded)).is_none());
}

#[test]
fn estimate_is_prohibitive_and_neutral_regardless_of_inputs() {
    for loops in [0u64, 1, 1000] {
        let est = dicostestimate(loops);
        assert_eq!(est.index_startup_cost as f64, 1e10);
        assert_eq!(est.index_total_cost as f64, 1e10);
        assert_eq!(est.index_startup_cost, est.index_total_cost);
        assert_eq!(est.index_selectivity as f64, 1.0);
        assert_eq!(est.index_correlation as f64, 1.0);
        assert_eq!(est.index_pages as f64, 1.0);
    }
}

#[test]
fn option_kind_registration_is_idempotent() {
    let mut reg = OptionKindRegistry { kind: None };
    let first = register_option_kind(&mut reg, 17);
    assert_eq!(first, 17);
    // A later request must be answered from the record, not re-allocated.
    let second = register_option_kind(&mut reg, 99);
    assert_eq!(second, 17);
    assert_eq!(reg.kind, Some(17));
}

#[test]
fn reloptions_table_describes_the_size_option() {
    let table = create_reloptions_table();
    assert_eq!(table.len(), 1);
    assert_eq!(table[0].name, "size");
    assert_eq!(table[0].default_value, 10);
    assert_eq!(table[0].min_value, -10);
    assert_eq!(table[0].max_value, 100);
    assert_eq!(table[0].lock_mode, LockMode::AccessExclusive);
    assert_eq!(table[0].offset, 4);
}
