use vstd::prelude::*;

use std::time::Duration;
use std::time::Instant;

use crate::clock::{instant_checked_add, instant_le, instant_plus, now_instant};

verus! {

/// An owning value with an expiration instant: once the clock passes
/// the expiration, the value can no longer be read.
pub struct TimedValue<TValue> {
    value: TValue,
    expiration: Instant,
}

impl<TValue> TimedValue<TValue> {
    /// The held value.
    pub closed spec fn spec_value(&self) -> TValue {
        self.value
    }

    /// The expiration instant.
    pub closed spec fn spec_expiration(&self) -> Instant {
        self.expiration
    }

    /// Wraps a value that expires at the given instant.
    pub fn new(value: TValue, expiration: Instant) -> (r: Self)
        ensures
            r.spec_value() == value,
            r.spec_expiration() == expiration,
    {
        Self { value, expiration }
    }

    /// The held value, or `None` once it has expired.
    pub fn value(&self) -> (r: Option<&TValue>)
        ensures
            r matches Some(v) ==> *v == self.spec_value(),
    {
        if self.expired() {
            None
        } else {
            Some(&self.value)
        }
    }

    /// The held value as mutable, or `None` once it has expired.
    pub fn value_mut(&mut self) -> (r: Option<&mut TValue>)
        ensures
            final(self).spec_expiration() == old(self).spec_expiration(),
            r matches Some(v) ==> (*v == old(self).spec_value() && final(self).spec_value()
                == *final(v)),
            r is None ==> final(self).spec_value() == old(self).spec_value(),
    {
        if self.expired() {
            None
        } else {
            Some(&mut self.value)
        }
    }

    /// Replaces the held value; the expiration stands.
    pub fn set_value(&mut self, value: TValue)
        ensures
            final(self).spec_value() == value,
            final(self).spec_expiration() == old(self).spec_expiration(),
    {
        self.value = value;
    }

    /// The expiration instant.
    pub fn expiration(&self) -> (r: Instant)
        ensures
            r == self.spec_expiration(),
    {
        self.expiration.clone()
    }

    /// Moves the expiration to the given instant; the value stands.
    pub fn set_expiration(&mut self, expiration: Instant)
        ensures
            final(self).spec_value() == old(self).spec_value(),
            final(self).spec_expiration() == expiration,
    {
        self.expiration = expiration;
    }

    /// Pushes the expiration out by the given duration; where the
    /// clock cannot represent the later instant, the expiration
    /// stands. The value stands either way.
    pub fn extend_expiration(&mut self, duration: Duration)
        ensures
            final(self).spec_value() == old(self).spec_value(),
            final(self).spec_expiration() == instant_plus(
                old(self).spec_expiration(),
                duration,
            ) || final(self).spec_expiration() == old(self).spec_expiration(),
    {
        match instant_checked_add(&self.expiration, &duration) {
            Some(later) => {
                self.expiration = later;
            },
            None => {},
        }
    }

    /// Whether the clock has not yet passed the expiration; a fresh
    /// clock reading, so nothing relates two calls.
    pub fn valid(&self) -> bool {
        !self.expired()
    }

    /// Whether the clock has passed the expiration; a fresh clock
    /// reading, so nothing relates two calls.
    pub fn expired(&self) -> bool {
        let now = now_instant();
        instant_le(&self.expiration, &now)
    }
}

} // verus!
