//! The clock, used only to time work for reports.

use std::time::{Duration, Instant};
use vstd::prelude::*;

verus! {

#[verifier::external_type_specification]
#[verifier::external_body]
pub struct ExInstant(Instant);

/// Relies on `Instant::now`; nothing is known of the reading.
#[verifier::external_body]
pub(crate) fn now() -> (r: Instant) {
    Instant::now()
}

/// Relies on `Instant::elapsed`, which saturates at zero rather than panic.
#[verifier::external_body]
pub(crate) fn elapsed_since(start: &Instant) -> (r: Duration) {
    start.elapsed()
}

/// Relies on `Duration::as_nanos`, the whole duration in nanoseconds.
#[verifier::external_body]
pub(crate) fn duration_nanos(d: &Duration) -> (r: u128) {
    d.as_nanos()
}

/// Relies on `Duration::from_nanos`, which does not panic.
#[verifier::external_body]
pub(crate) fn duration_from_nanos(nanos: u64) -> (r: Duration) {
    Duration::from_nanos(nanos)
}

} // verus!
