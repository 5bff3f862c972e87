//! Option-kind registration: the process-wide option-kind identifier is
//! allocated by the host exactly once; later registration attempts must be
//! answered from the recorded identifier, never by a second allocation.
//! This module also carries the descriptor of the one recognized option,
//! the data the host's registration call is fed with.

use vstd::prelude::*;
use crate::options::{HEADER_LEN, SIZE_DEFAULT, SIZE_MAX, SIZE_MIN, SIZE_OFFSET};

verus! {

/// Lock level a relation must hold for the option to be altered.
#[derive(Clone, Copy, Debug, PartialEq, Eq, Structural)]
pub enum LockMode {
    /// Shared access for reading.
    AccessShare,
    /// Shared row-level access.
    RowShare,
    /// Row-level write access.
    RowExclusive,
    /// Exclusive maintenance access that still allows reads and writes.
    ShareUpdateExclusive,
    /// Shared access that blocks writes.
    Share,
    /// Shared access that blocks writes and other share-row holders.
    ShareRowExclusive,
    /// Exclusive access that still allows readers.
    Exclusive,
    /// Fully exclusive access.
    AccessExclusive,
}

/// Descriptor of one recognized integer option: what the host's option
/// machinery is told at registration, and the offset at which the packed
/// record stores the value.
pub struct OptionDescriptor {
    /// Option name.
    pub name: String,
    /// Value used when the option is not supplied.
    pub default_value: i32,
    /// Smallest accepted value.
    pub min_value: i32,
    /// Largest accepted value.
    pub max_value: i32,
    /// Lock level required to alter the option.
    pub lock_mode: LockMode,
    /// Byte offset of the field in the packed record.
    pub offset: usize,
}

/// The table of recognized options: the single integer option `size`,
/// default ten, bounds minus ten to one hundred, stored right after the
/// length header, alterable only under the fully exclusive lock.
pub fn create_reloptions_table() -> (t: Vec<OptionDescriptor>)
    ensures
        t@.len() == 1,
        t@[0].name@ == "size"@,
        t@[0].default_value == SIZE_DEFAULT,
        t@[0].min_value == SIZE_MIN,
        t@[0].max_value == SIZE_MAX,
        t@[0].lock_mode == LockMode::AccessExclusive,
        t@[0].offset == SIZE_OFFSET,
        t@[0].offset == HEADER_LEN,
{
    let mut t: Vec<OptionDescriptor> = Vec::new();
    t.push(
        OptionDescriptor {
            name: String::from_str("size"),
            default_value: SIZE_DEFAULT,
            min_value: SIZE_MIN,
            max_value: SIZE_MAX,
            lock_mode: LockMode::AccessExclusive,
            offset: SIZE_OFFSET,
        },
    );
    t
}

/// The write-once record of the process-wide option-kind identifier.
pub struct OptionKindRegistry {
    /// The identifier the host allocated, once registration has happened.
    pub kind: Option<u32>,
}

/// Answers a registration request: the first request records the identifier
/// the host allocated; every later request is answered from the record, so
/// repeated registration is idempotent and the host's global option-kind
/// namespace is drawn from exactly once.
pub fn register_option_kind(reg: &mut OptionKindRegistry, allocated: u32) -> (kind: u32)
    ensures
        register_step(*old(reg), allocated, *final(reg), kind),
        final(reg).kind == Some(kind),
        old(reg).kind is Some ==> *final(reg) == *old(reg) && old(reg).kind == Some(kind),
        old(reg).kind is None ==> kind == allocated,
{
    match reg.kind {
        Some(k) => k,
        None => {
            reg.kind = Some(allocated);
            allocated
        },
    }
}

/// Law: once registered, the recorded option kind never changes, however
/// many further registration requests are made.
pub proof fn lemma_registration_idempotent(pre: OptionKindRegistry, k: u32, a1: u32, a2: u32)
    requires
        pre.kind == Some(k),
    ensures
        forall|post: OptionKindRegistry, r: u32|
            register_step(pre, a1, post, r) ==> post == pre && r == k,
        forall|mid: OptionKindRegistry, r1: u32, post: OptionKindRegistry, r2: u32|
            register_step(pre, a1, mid, r1) && register_step(mid, a2, post, r2) ==> post == pre
                && r1 == k && r2 == k,
{
}

/// The state transition `register_option_kind` makes, as a relation.
pub open spec fn register_step(
    pre: OptionKindRegistry,
    allocated: u32,
    post: OptionKindRegistry,
    r: u32,
) -> bool {
    &&& post.kind == Some(r)
    &&& (pre.kind is Some ==> post == pre && pre.kind == Some(r))
    &&& (pre.kind is None ==> r == allocated)
}

} // verus!
