//! The admission controller: a token bucket per client.
//!
//! Each client has a bucket of `burst_size` tokens that refills continuously
//! at the sustained rate. An admission check takes one token; a client whose
//! bucket is empty is rejected at once, never queued. Buckets that have not
//! been used recently are indistinguishable from fresh ones and are evicted
//! by a periodic sweep.

use vstd::prelude::*;
use crate::config::RateLimitingConfig;
use crate::error::{fails_with, ApiError, ErrorKind};
use governor::{DefaultKeyedRateLimiter, Quota};
use std::num::NonZeroU32;

verus! {

/// The table of buckets, one per client key: a `governor::RateLimiter` keyed
/// by the client's address in text form. Opaque to the verifier.
#[verifier::external_body]
pub struct AdmissionController {
    limiter: DefaultKeyedRateLimiter<String>,
}

/// The client keys that have a bucket in the table.
pub uninterp spec fn bucket_keys(controller: AdmissionController) -> Set<Seq<char>>;

/// Calls `governor::Quota::per_second` and `allow_burst`, then
/// `governor::RateLimiter::keyed`. Both numbers must be positive. Trusted:
/// the new table holds no bucket.
#[verifier::external_body]
fn limiter_new(requests_per_second: u32, burst_size: u32) -> (r: AdmissionController)
    requires
        requests_per_second > 0,
        burst_size > 0,
    ensures
        bucket_keys(r) == Set::<Seq<char>>::empty(),
{
    let rate = NonZeroU32::new(requests_per_second).unwrap();
    let burst = NonZeroU32::new(burst_size).unwrap();
    AdmissionController {
        limiter: DefaultKeyedRateLimiter::keyed(Quota::per_second(rate).allow_burst(burst)),
    }
}

/// Calls `governor::RateLimiter::check_key`. Trusted: afterwards the client
/// has a bucket, and no other bucket is added or lost; a client that had no
/// bucket starts with a full one, so its check is allowed. For a client with
/// a bucket the decision depends on the clock and on its earlier checks.
#[verifier::external_body]
fn limiter_check(controller: &mut AdmissionController, client: &str) -> (allowed: bool)
    ensures
        bucket_keys(*final(controller)) == bucket_keys(*old(controller)).insert(client@),
        !bucket_keys(*old(controller)).contains(client@) ==> allowed,
{
    controller.limiter.check_key(&client.to_string()).is_ok()
}

/// Calls `governor::RateLimiter::retain_recent`. Trusted: buckets are only
/// removed. Which ones go depends on the clock.
#[verifier::external_body]
fn limiter_retain_recent(controller: &mut AdmissionController)
    ensures
        bucket_keys(*final(controller)).subset_of(bucket_keys(*old(controller))),
{
    controller.limiter.retain_recent();
}

/// Calls `governor::RateLimiter::len`. Trusted: the result is the number of
/// buckets in the table.
#[verifier::external_body]
fn limiter_len(controller: &AdmissionController) -> (n: usize)
    ensures
        n == bucket_keys(*controller).len(),
{
    controller.limiter.len()
}

/// What an admission decision means for the caller: a denied request is
/// `RateLimited`.
pub fn admission(allowed: bool) -> (r: Result<(), ApiError>)
    ensures
        allowed ==> r is Ok,
        !allowed ==> fails_with(r, ErrorKind::RateLimited, "Too many requests"@),
{
    if allowed {
        Ok(())
    } else {
        Err(ApiError { kind: ErrorKind::RateLimited, message: "Too many requests".to_owned() })
    }
}

impl AdmissionController {
    /// The clients that have a bucket in the table.
    pub open spec fn clients(&self) -> Set<Seq<char>> {
        bucket_keys(*self)
    }

    /// A controller that admits `requests_per_second` requests per second
    /// from each client, with bursts of up to `burst_size`.
    ///
    /// A controller exists only for a positive rate and a positive burst
    /// size. Its table starts without buckets.
    pub fn new(config: &RateLimitingConfig) -> (r: Option<AdmissionController>)
        ensures
            r is Some <==> config.requests_per_second > 0 && config.burst_size > 0,
            r matches Some(controller) ==> controller.clients() == Set::<Seq<char>>::empty(),
            r matches Some(controller) ==> controller.clients().finite(),
    {
        if config.requests_per_second > 0 && config.burst_size > 0 {
            Some(limiter_new(config.requests_per_second, config.burst_size))
        } else {
            None
        }
    }

    /// Takes one token from the bucket of `client`.
    ///
    /// The answer is immediate. A client without a bucket gets a full one and
    /// is admitted. For a client with a bucket, whether a token is left
    /// depends on the clock. Either way the client has a bucket afterwards,
    /// and no other client's bucket is added or lost. The only error is
    /// `RateLimited`.
    pub fn check(&mut self, client: &str) -> (r: Result<(), ApiError>)
        ensures
            final(self).clients() == old(self).clients().insert(client@),
            !old(self).clients().contains(client@) ==> r is Ok,
            r is Err ==> fails_with(r, ErrorKind::RateLimited, "Too many requests"@),
            old(self).clients().finite() ==> final(self).clients().finite(),
    {
        admission(limiter_check(self, client))
    }

    /// Evicts the buckets that have not been used recently and returns how
    /// many buckets the table held before.
    ///
    /// Buckets are only removed, never added. Which ones are stale depends on
    /// the clock.
    pub fn evict_stale(&mut self) -> (held: usize)
        ensures
            held == old(self).clients().len(),
            final(self).clients().subset_of(old(self).clients()),
            old(self).clients().finite() ==> final(self).clients().finite(),
    {
        let held = limiter_len(self);
        limiter_retain_recent(self);
        proof {
            if old(self).clients().finite() {
                vstd::set_lib::lemma_set_subset_finite(old(self).clients(), self.clients());
            }
        }
        held
    }
}

} // verus!
