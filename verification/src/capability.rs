//! Capability descriptor: the table of flags, counts and callback slots
//! that the access method advertises to the host's planner, and the factory
//! that populates it.

use vstd::prelude::*;

verus! {

/// The reserved object identifier meaning "no fixed key type".
pub const INVALID_OID: u32 = 0;

/// A callback binding in the capability table: either a registered entry
/// point or explicitly absent, telling the host to skip that code path.
#[derive(Clone, Copy, Debug, PartialEq, Eq, Structural)]
pub enum CallbackSlot {
    /// The callback is registered.
    Present,
    /// The callback is explicitly not provided.
    Absent,
}

impl CallbackSlot {
    /// True of a registered slot.
    pub open spec fn is_present(self) -> bool {
        self == CallbackSlot::Present
    }
}

/// The capability table an access-method registration hands the host: every
/// flag and count set explicitly, every callback slot either present or
/// explicitly absent.
pub struct IndexAmRoutine {
    /// Number of operator strategies the operator class registers.
    pub amstrategies: u16,
    /// Number of support procedures the operator class registers.
    pub amsupport: u16,
    /// Support-procedure number of the options procedure, zero for none.
    pub amoptsprocnum: u16,
    /// The index can return entries in the order of an indexed column.
    pub amcanorder: bool,
    /// The index can return entries in the order of an operator result.
    pub amcanorderbyop: bool,
    /// Scans can run backward.
    pub amcanbackward: bool,
    /// The index can enforce uniqueness.
    pub amcanunique: bool,
    /// The index can have multiple key columns.
    pub amcanmulticol: bool,
    /// The first key column may be omitted from a scan.
    pub amoptionalkey: bool,
    /// The index supports array-key searches.
    pub amsearcharray: bool,
    /// The index supports null-key searches.
    pub amsearchnulls: bool,
    /// The index has its own storage for indexed values.
    pub amstorage: bool,
    /// The relation can be clustered on the index.
    pub amclusterable: bool,
    /// The index supports predicate locks.
    pub ampredlocks: bool,
    /// The index supports parallel scans.
    pub amcanparallel: bool,
    /// The index supports included (non-key) columns.
    pub amcaninclude: bool,
    /// Maintenance may use the larger maintenance memory budget.
    pub amusemaintenanceworkmem: bool,
    /// Fixed key type of the index, or `INVALID_OID` for none.
    pub amkeytype: u32,
    /// Flag word for parallel-vacuum participation.
    pub amparallelvacuumoptions: u8,
    /// Builds a new index from existing heap contents.
    pub ambuild: CallbackSlot,
    /// Builds the crash-safe empty initialization fork.
    pub ambuildempty: CallbackSlot,
    /// Inserts one tuple's indexed values.
    pub aminsert: CallbackSlot,
    /// Bulk-deletes entries pointing at dead tuples.
    pub ambulkdelete: CallbackSlot,
    /// Post-vacuum cleanup pass.
    pub amvacuumcleanup: CallbackSlot,
    /// Tells whether the index can return an indexed column's value.
    pub amcanreturn: CallbackSlot,
    /// Cost estimate for the planner.
    pub amcostestimate: CallbackSlot,
    /// Relation-option parser.
    pub amoptions: CallbackSlot,
    /// Property introspection.
    pub amproperty: CallbackSlot,
    /// Names the phases of a build for progress reporting.
    pub ambuildphasename: CallbackSlot,
    /// Operator-class validator.
    pub amvalidate: CallbackSlot,
    /// Opens a scan handle.
    pub ambeginscan: CallbackSlot,
    /// Rebinds a scan's keys.
    pub amrescan: CallbackSlot,
    /// Returns the next matching tuple of a scan.
    pub amgettuple: CallbackSlot,
    /// Fills a bitmap with all matching tuples.
    pub amgetbitmap: CallbackSlot,
    /// Closes a scan handle.
    pub amendscan: CallbackSlot,
    /// Marks the current scan position.
    pub ammarkpos: CallbackSlot,
    /// Restores the marked scan position.
    pub amrestrpos: CallbackSlot,
    /// Sizes the shared state of a parallel scan.
    pub amestimateparallelscan: CallbackSlot,
    /// Initializes the shared state of a parallel scan.
    pub aminitparallelscan: CallbackSlot,
    /// Resets a parallel scan.
    pub amparallelrescan: CallbackSlot,
}

impl IndexAmRoutine {
    /// True of a table whose slots can answer retrieval queries at all.
    pub open spec fn can_retrieve(self) -> bool {
        self.amgettuple.is_present() || self.amgetbitmap.is_present()
    }

    /// The capability invariant: every callback the host requires of any
    /// access method is present, every slot that only an advertised
    /// capability requires is present exactly when that capability is
    /// advertised, and a capability that presumes retrieval is advertised
    /// only when a retrieval slot is present.
    pub open spec fn well_formed(self) -> bool {
        &&& self.ambuild.is_present()
        &&& self.ambuildempty.is_present()
        &&& self.aminsert.is_present()
        &&& self.ambulkdelete.is_present()
        &&& self.amvacuumcleanup.is_present()
        &&& self.amcostestimate.is_present()
        &&& self.amoptions.is_present()
        &&& self.amvalidate.is_present()
        &&& self.ambeginscan.is_present()
        &&& self.amrescan.is_present()
        &&& self.amendscan.is_present()
        &&& (self.amcanorder <==> self.ammarkpos.is_present())
        &&& (self.amcanorder <==> self.amrestrpos.is_present())
        &&& (self.amcanparallel <==> self.amestimateparallelscan.is_present())
        &&& (self.amcanparallel <==> self.aminitparallelscan.is_present())
        &&& (self.amcanparallel <==> self.amparallelrescan.is_present())
        &&& (self.amcanbackward ==> self.can_retrieve())
        &&& (self.amcanorderbyop ==> self.can_retrieve())
    }
}

/// The exact capability table this access method advertises: one support
/// procedure, no ordering, no uniqueness, no parallel support, and no
/// retrieval slot registered.
pub open spec fn spec_fulon_routine() -> IndexAmRoutine {
    IndexAmRoutine {
        amstrategies: 0,
        amsupport: 1,
        amoptsprocnum: 0,
        amcanorder: false,
        amcanorderbyop: false,
        amcanbackward: false,
        amcanunique: false,
        amcanmulticol: false,
        amoptionalkey: false,
        amsearcharray: false,
        amsearchnulls: false,
        amstorage: false,
        amclusterable: false,
        ampredlocks: false,
        amcanparallel: false,
        amcaninclude: false,
        amusemaintenanceworkmem: false,
        amkeytype: INVALID_OID,
        amparallelvacuumoptions: 0,
        ambuild: CallbackSlot::Present,
        ambuildempty: CallbackSlot::Present,
        aminsert: CallbackSlot::Present,
        ambulkdelete: CallbackSlot::Present,
        amvacuumcleanup: CallbackSlot::Present,
        amcanreturn: CallbackSlot::Absent,
        amcostestimate: CallbackSlot::Present,
        amoptions: CallbackSlot::Present,
        amproperty: CallbackSlot::Absent,
        ambuildphasename: CallbackSlot::Absent,
        amvalidate: CallbackSlot::Present,
        ambeginscan: CallbackSlot::Present,
        amrescan: CallbackSlot::Present,
        amgettuple: CallbackSlot::Absent,
        amgetbitmap: CallbackSlot::Absent,
        amendscan: CallbackSlot::Present,
        ammarkpos: CallbackSlot::Absent,
        amrestrpos: CallbackSlot::Absent,
        amestimateparallelscan: CallbackSlot::Absent,
        aminitparallelscan: CallbackSlot::Absent,
        amparallelrescan: CallbackSlot::Absent,
    }
}

/// The handler factory: produces the fully populated capability table, the
/// same one on every call, with no prior state needed.
pub fn fulon_filter() -> (r: IndexAmRoutine)
    ensures
        r == spec_fulon_routine(),
        r.well_formed(),
        !r.can_retrieve(),
{
    IndexAmRoutine {
        amstrategies: 0,
        amsupport: 1,
        amoptsprocnum: 0,
        amcanorder: false,
        amcanorderbyop: false,
        amcanbackward: false,
        amcanunique: false,
        amcanmulticol: false,
        amoptionalkey: false,
        amsearcharray: false,
        amsearchnulls: false,
        amstorage: false,
        amclusterable: false,
        ampredlocks: false,
        amcanparallel: false,
        amcaninclude: false,
        amusemaintenanceworkmem: false,
        amkeytype: INVALID_OID,
        amparallelvacuumoptions: 0,
        ambuild: CallbackSlot::Present,
        ambuildempty: CallbackSlot::Present,
        aminsert: CallbackSlot::Present,
        ambulkdelete: CallbackSlot::Present,
        amvacuumcleanup: CallbackSlot::Present,
        amcanreturn: CallbackSlot::Absent,
        amcostestimate: CallbackSlot::Present,
        amoptions: CallbackSlot::Present,
        amproperty: CallbackSlot::Absent,
        ambuildphasename: CallbackSlot::Absent,
        amvalidate: CallbackSlot::Present,
        ambeginscan: CallbackSlot::Present,
        amrescan: CallbackSlot::Present,
        amgettuple: CallbackSlot::Absent,
        amgetbitmap: CallbackSlot::Absent,
        amendscan: CallbackSlot::Present,
        ammarkpos: CallbackSlot::Absent,
        amrestrpos: CallbackSlot::Absent,
        amestimateparallelscan: CallbackSlot::Absent,
        aminitparallelscan: CallbackSlot::Absent,
        amparallelrescan: CallbackSlot::Absent,
    }
}

/// Law: the advertised capability table satisfies the capability invariant;
/// in particular every callback slot a capability flag requires is present,
/// and every slot of an unsupported capability is absent.
pub proof fn lemma_fulon_routine_well_formed()
    ensures
        spec_fulon_routine().well_formed(),
        !spec_fulon_routine().can_retrieve(),
{
}

/// The operator-class validator: this index places no constraint of its own
/// on an operator class, so any class is accepted.
pub fn divalidate(opclassoid: u32) -> (r: bool)
    ensures
        r,
{
    let _ = opclassoid;
    true
}

} // verus!
