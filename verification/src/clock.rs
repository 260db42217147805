use vstd::prelude::*;

verus! {

/// Nanoseconds in one second, the unit the reporting interval is
/// measured in.
pub const NANOS_PER_SECOND: u64 = 1_000_000_000;

/// Relies on time::precise_time_ns: the current value of a
/// high-resolution counter in nanoseconds since an unspecified epoch.
/// The value depends on when the call happens, so nothing is promised
/// of it; whoever consumes a sample must hold for every value.
pub assume_specification[ time::precise_time_ns ]() -> u64;

/// Converts a raw nanosecond clock sample to whole seconds.
pub fn ns_to_seconds(ns: u64) -> (s: u64)
    ensures
        s == ns / NANOS_PER_SECOND,
{
    ns / NANOS_PER_SECOND
}

/// One clock sample in whole seconds: what the worker loop hands to
/// its reporter each iteration. Of the sample itself nothing is known;
/// the reporter's contract holds for every value.
pub fn now_seconds() -> u64 {
    ns_to_seconds(time::precise_time_ns())
}

} // verus!
