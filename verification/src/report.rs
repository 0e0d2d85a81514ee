//! The figures of the report that follows a run.

use vstd::prelude::*;

verus! {

/// The rate of a run of `total_records` records that took `duration_secs`
/// whole seconds: records by seconds, rounded down, where a run of less than
/// a second counts as one second.
pub open spec fn rate(total_records: nat, duration_secs: nat) -> nat {
    if duration_secs == 0 {
        total_records
    } else {
        total_records / duration_secs
    }
}

/// The records written per second, or `None` where the seconds do not fit a
/// machine word.
pub fn records_per_second(total_records: usize, duration_secs: u64) -> (per_second: Option<usize>)
    ensures
        per_second is Some <==> duration_secs <= usize::MAX,
        per_second matches Some(r) ==> r == rate(total_records as nat, duration_secs as nat),
{
    if duration_secs > usize::MAX as u64 {
        return None;
    }
    let mut seconds = duration_secs as usize;
    if seconds == 0 {
        seconds = 1;
    }
    Some(total_records / seconds)
}

} // verus!
