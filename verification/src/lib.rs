//! An index access method adapter: the capability table a host relational
//! engine negotiates with, the relation-option codec that packs per-relation
//! configuration into a length-prefixed binary record, the lifecycle
//! callbacks of an index instance, the scan-handle state machine, and the
//! planner's cost estimate. The host-facing foreign shells live outside this
//! crate and delegate every decision to the functions here.

pub mod capability;
pub mod estimate;
pub mod lifecycle;
pub mod options;
pub mod registry;
pub mod scan;
