//! The short-lived cache of the storage breakdown report.

use vstd::prelude::*;

verus! {

/// Declares `std::time::Instant` (a reading of the monotonic clock) so that
/// the cache can hold one.
#[verifier::external_type_specification]
#[verifier::external_body]
pub struct ExInstant(std::time::Instant);

/// A cached report stays fresh for this many seconds.
pub const STORAGE_CACHE_TTL_SECS: u64 = 60;

/// Nanoseconds in the freshness period.
pub const STORAGE_CACHE_TTL_NANOS: u128 = 60_000_000_000;

/// `Instant::now()`: the monotonic clock's current reading. Nothing is
/// stated about it.
#[verifier::external_body]
fn instant_now() -> std::time::Instant {
    std::time::Instant::now()
}

/// `t.elapsed().as_nanos()`: time since `t` on the monotonic clock, in
/// nanoseconds. It depends on the clock, so nothing is stated about it.
#[verifier::external_body]
fn elapsed_nanos(t: &std::time::Instant) -> u128 {
    t.elapsed().as_nanos()
}

/// A report computed `age_nanos` nanoseconds ago is still served.
pub open spec fn spec_is_fresh(age_nanos: u128) -> bool {
    age_nanos < STORAGE_CACHE_TTL_NANOS
}

/// Whether a report of this age is still served (younger than a minute).
pub fn is_fresh(age_nanos: u128) -> (b: bool)
    ensures
        b == spec_is_fresh(age_nanos),
{
    age_nanos < STORAGE_CACHE_TTL_NANOS
}

/// The last computed report and when it was computed.
pub struct StorageCache<T> {
    last_updated: Option<std::time::Instant>,
    payload: Option<T>,
}

impl<T> StorageCache<T> {
    /// The stored report, if any.
    pub closed spec fn stored(self) -> Option<T> {
        self.payload
    }

    /// Whether the time of the stored report is known.
    pub closed spec fn stamped(self) -> bool {
        self.last_updated is Some
    }

    /// An empty cache.
    pub fn new() -> (r: Self)
        ensures
            r.stored() is None,
            !r.stamped(),
    {
        StorageCache { last_updated: None, payload: None }
    }

    /// The stored report when it is younger than the freshness period;
    /// `None` when nothing is stored. Whether a stored report is still
    /// fresh depends on the clock.
    pub fn fresh_payload(&self) -> (r: Option<&T>)
        ensures
            r matches Some(p) ==> self.stored() == Some(*p) && self.stamped(),
            (self.stored() is None || !self.stamped()) ==> r is None,
    {
        match &self.last_updated {
            Some(t) => {
                let age = elapsed_nanos(t);
                self.payload_at_age(age)
            },
            None => None,
        }
    }

    /// The stored report as served when it was computed `age_nanos`
    /// nanoseconds ago: `Some` exactly when a stamped report is stored and
    /// that age is under the freshness period.
    pub fn payload_at_age(&self, age_nanos: u128) -> (r: Option<&T>)
        ensures
            r matches Some(p) ==> self.stored() == Some(*p),
            r is Some <==> (self.stored() is Some && self.stamped() && spec_is_fresh(age_nanos)),
    {
        match (&self.last_updated, &self.payload) {
            (Some(_), Some(p)) => {
                if is_fresh(age_nanos) {
                    Some(p)
                } else {
                    None
                }
            },
            _ => None,
        }
    }

    /// Stores a freshly computed report, stamped with the current time.
    pub fn store(&mut self, payload: T)
        ensures
            final(self).stored() == Some(payload),
            final(self).stamped(),
    {
        self.last_updated = Some(instant_now());
        self.payload = Some(payload);
    }
}

} // verus!
