//! The decisions of a lock that one processor owns at a time.
//!
//! The lock is a word that holds `UNLOCKED` or the mark of the owning processor; taking
//! and giving it back are atomic compare-exchanges on that word, made by the caller.
use vstd::prelude::*;
use crate::types::CpuId;

verus! {

/// The lock word of a lock that nobody owns.
pub const UNLOCKED: u32 = 0;

/// The lock word that marks processor `id` as the owner.  Processor 0 is valid but its id
/// equals `UNLOCKED`, so an owner is marked by its id plus one.
pub fn lock_value(id: CpuId) -> (r: u32)
    requires
        id < u32::MAX,
    ensures
        r == id + 1,
        r != UNLOCKED,
{
    id + 1
}

/// Whether the lock is poisoned after an unlock: the unlock gives the lock back
/// (`released`) only when the unlocking processor owned it; otherwise the lock is
/// poisoned from then on.
pub fn poisoned_after_unlock(poisoned: bool, released: bool) -> (r: bool)
    ensures
        r == (poisoned || !released),
        released ==> r == poisoned,
{
    poisoned || !released
}

} // verus!
