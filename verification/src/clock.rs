use vstd::prelude::*;

use std::time::Duration;
use std::time::Instant;

verus! {

#[verifier::external_type_specification]
#[verifier::external_body]
pub struct ExInstant(Instant);

/// Relies on std::time::Instant::now: the current monotonic instant;
/// nothing can be promised of a clock reading.
#[verifier::external_body]
pub fn now_instant() -> Instant {
    Instant::now()
}

/// Relies on std::time::Instant::elapsed: whole milliseconds since
/// `start`, saturated to a machine word; nothing can be promised of a
/// clock reading.
#[verifier::external_body]
pub fn elapsed_millis(start: &Instant) -> u64 {
    let ms = start.elapsed().as_millis();
    if ms > u64::MAX as u128 {
        u64::MAX
    } else {
        ms as u64
    }
}

/// Relies on std::time::Instant's Clone impl, which copies the instant.
pub assume_specification[ <Instant as Clone>::clone ](i: &Instant) -> (r: Instant)
    ensures
        r == *i,
;

/// The instant a whole duration past `i`, where that instant exists; a
/// function of the two arguments alone.
pub uninterp spec fn instant_plus(i: Instant, d: Duration) -> Instant;

/// Relies on std::time::Instant::checked_add: the instant `d` past
/// `i`, or `None` where that cannot be represented.
#[verifier::external_body]
pub fn instant_checked_add(i: &Instant, d: &Duration) -> (r: Option<Instant>)
    ensures
        r matches Some(n) ==> n == instant_plus(*i, *d),
{
    i.checked_add(*d)
}

/// Relies on std::time::Instant's PartialOrd impl: whether `a` is no
/// later than `b`; instants are totally ordered.
#[verifier::external_body]
pub fn instant_le(a: &Instant, b: &Instant) -> bool {
    a <= b
}

} // verus!
