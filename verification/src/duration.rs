//! What the library relies on of `std::time::Duration`.
use vstd::prelude::*;

verus! {

/// The whole seconds of a duration, as `Duration::as_secs` gives them.
pub uninterp spec fn duration_secs(d: core::time::Duration) -> u64;

/// The nanoseconds of a duration past its whole seconds, as
/// `Duration::subsec_nanos` gives them.
pub uninterp spec fn duration_subsec_nanos(d: core::time::Duration) -> u32;

/// `Duration::from_secs` builds the duration of `secs` whole seconds.
pub assume_specification[ core::time::Duration::from_secs ](secs: u64) -> (d: core::time::Duration)
    ensures
        duration_secs(d) == secs,
        duration_subsec_nanos(d) == 0,
;

/// `Duration::new` builds a duration from seconds and nanoseconds, the
/// nanoseconds beyond a second carried into the seconds; it panics when the
/// seconds overflow.
pub assume_specification[ core::time::Duration::new ](secs: u64, nanos: u32) -> (d: core::time::Duration)
    requires
        secs + nanos / 1_000_000_000 <= u64::MAX,
    ensures
        duration_secs(d) == secs + nanos / 1_000_000_000,
        duration_subsec_nanos(d) == nanos % 1_000_000_000,
;

/// `Duration::as_secs` gives the whole seconds.
pub assume_specification[ core::time::Duration::as_secs ](d: &core::time::Duration) -> (s: u64)
    ensures
        s == duration_secs(*d),
;

/// `Duration::subsec_nanos` gives the nanoseconds past the whole seconds,
/// always less than a billion.
pub assume_specification[ core::time::Duration::subsec_nanos ](d: &core::time::Duration) -> (n: u32)
    ensures
        n == duration_subsec_nanos(*d),
        n < 1_000_000_000,
;

} // verus!
