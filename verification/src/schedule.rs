//! Schedule entries: sign-encoded level/duration values.
//!
//! A schedule is an ordered table of non-zero signed entries that a channel
//! replays forever. The sign of an entry encodes the output level to drive
//! (negative: low, non-negative: high) and its absolute value encodes, in
//! ticks, how long that level is held before the next entry is consumed.

use vstd::prelude::*;

verus! {

/// The output level a schedule entry encodes: negative entries drive the
/// line low, non-negative entries drive it high.
pub open spec fn entry_high(e: i16) -> bool {
    e >= 0
}

/// The duration a schedule entry encodes, in ticks: its absolute value.
pub open spec fn entry_ticks(e: i16) -> int {
    if e < 0 {
        -(e as int)
    } else {
        e as int
    }
}

/// A well-formed schedule table: non-empty, with no zero entry. A zero
/// entry would encode a vanishing interval with an ambiguous level, so
/// ruling it out is a construction-time obligation of the integrator.
pub open spec fn sched_wf(s: Seq<i16>) -> bool {
    &&& s.len() > 0
    &&& forall|i: int| 0 <= i < s.len() ==> s[i] != 0
}

/// Decode the output level of a schedule entry.
pub fn entry_is_high(e: i16) -> (high: bool)
    ensures
        high == entry_high(e),
{
    e >= 0
}

/// Decode the duration of a schedule entry, in ticks. The magnitude of any
/// 16-bit signed entry fits the 16-bit unsigned countdown register.
pub fn entry_duration(e: i16) -> (ticks: u16)
    ensures
        ticks == entry_ticks(e),
{
    if e < 0 {
        (-(e as i32)) as u16
    } else {
        e as u16
    }
}

} // verus!
