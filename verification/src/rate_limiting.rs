//! Keyed token-bucket admission control: the typed rate-limit
//! configuration, the limiter that enforces it, and the verified mapping
//! from an admission outcome to the HTTP answer.
use vstd::prelude::*;

verus! {

/// A rate limit: so many queries per hour, minute or second. The window
/// scales truly — an hourly quota spreads over 3600 seconds.
#[derive(Clone, Copy, Debug, PartialEq, Eq, Structural)]
pub enum RateLimitingConfig {
    QPH(u32),
    QPM(u32),
    QPS(u32),
}

impl Default for RateLimitingConfig {
    /// One hundred queries per second.
    fn default() -> (r: Self)
        ensures
            r == RateLimitingConfig::QPS(100u32),
    {
        RateLimitingConfig::QPS(100)
    }
}

/// How many admissions a configuration allows per window.
pub open spec fn quota_times(c: RateLimitingConfig) -> u32 {
    match c {
        RateLimitingConfig::QPH(t) => t,
        RateLimitingConfig::QPM(t) => t,
        RateLimitingConfig::QPS(t) => t,
    }
}

/// The window of a configuration, in seconds.
pub open spec fn quota_window_secs(c: RateLimitingConfig) -> u64 {
    match c {
        RateLimitingConfig::QPH(_) => 3600,
        RateLimitingConfig::QPM(_) => 60,
        RateLimitingConfig::QPS(_) => 1,
    }
}

/// The quota a configuration stands for: admissions per window and the
/// window in seconds.
pub fn quota_for(c: &RateLimitingConfig) -> (r: (u32, u64))
    ensures
        r.0 == quota_times(*c),
        r.1 == quota_window_secs(*c),
{
    match c {
        RateLimitingConfig::QPH(t) => (*t, 3600),
        RateLimitingConfig::QPM(t) => (*t, 60),
        RateLimitingConfig::QPS(t) => (*t, 1),
    }
}

/// A keyed token-bucket limiter over integer keys, with its clock.
#[verifier::external_body]
pub struct KeyedLimiter {
    inner: governor::RateLimiter<
        u64,
        governor::state::keyed::DefaultKeyedStateStore<u64>,
        governor::clock::DefaultClock,
    >,
    clock: governor::clock::DefaultClock,
}

/// Name for the quota a limiter enforces: admissions per window and the
/// window in seconds, fixed once at construction.
pub uninterp spec fn limiter_quota(l: KeyedLimiter) -> (u32, u64);

/// Relies on `governor::RateLimiter::keyed` with `Quota::per_second`: a
/// keyed token bucket admitting at most `n` cells per second per key.
#[verifier::external_body]
fn limiter_per_second(n: u32) -> (r: KeyedLimiter)
    requires
        n > 0,
    ensures
        limiter_quota(r) == (n, 1u64),
{
    let q = governor::Quota::per_second(std::num::NonZeroU32::new(n).unwrap());
    KeyedLimiter {
        inner: governor::RateLimiter::keyed(q),
        clock: governor::clock::DefaultClock::default(),
    }
}

/// Relies on `governor::RateLimiter::keyed` with `Quota::per_minute`: at
/// most `n` cells per 60-second period per key.
#[verifier::external_body]
fn limiter_per_minute(n: u32) -> (r: KeyedLimiter)
    requires
        n > 0,
    ensures
        limiter_quota(r) == (n, 60u64),
{
    let q = governor::Quota::per_minute(std::num::NonZeroU32::new(n).unwrap());
    KeyedLimiter {
        inner: governor::RateLimiter::keyed(q),
        clock: governor::clock::DefaultClock::default(),
    }
}

/// Relies on `governor::RateLimiter::keyed` with `Quota::per_hour`: at
/// most `n` cells per 3600-second period per key.
#[verifier::external_body]
fn limiter_per_hour(n: u32) -> (r: KeyedLimiter)
    requires
        n > 0,
    ensures
        limiter_quota(r) == (n, 3600u64),
{
    let q = governor::Quota::per_hour(std::num::NonZeroU32::new(n).unwrap());
    KeyedLimiter {
        inner: governor::RateLimiter::keyed(q),
        clock: governor::clock::DefaultClock::default(),
    }
}

impl KeyedLimiter {
    /// Builds the limiter a configuration asks for — with the window the
    /// configuration names, an hourly quota truly spreading over 3600
    /// seconds; refuses a zero quota, which no token bucket can
    /// represent.
    pub fn from_config(c: &RateLimitingConfig) -> (r: Option<KeyedLimiter>)
        ensures
            r is Some <==> quota_times(*c) > 0,
            r matches Some(l) ==> limiter_quota(l) == (quota_times(*c), quota_window_secs(*c)),
    {
        match c {
            RateLimitingConfig::QPS(t) => {
                if *t > 0 {
                    Some(limiter_per_second(*t))
                } else {
                    None
                }
            },
            RateLimitingConfig::QPM(t) => {
                if *t > 0 {
                    Some(limiter_per_minute(*t))
                } else {
                    None
                }
            },
            RateLimitingConfig::QPH(t) => {
                if *t > 0 {
                    Some(limiter_per_hour(*t))
                } else {
                    None
                }
            },
        }
    }

    /// Relies on `governor::RateLimiter::check_key` and
    /// `NotUntil::wait_time_from`: admits or denies the key now, and on
    /// denial reports the whole seconds until a token frees. The outcome
    /// depends on the limiter's clock and earlier traffic.
    #[verifier::external_body]
    pub fn check_key_wait(&self, key: u64) -> Result<(), u64> {
        match self.inner.check_key(&key) {
            Ok(_) => Ok(()),
            Err(neg) => Err(
                neg.wait_time_from(governor::clock::Clock::now(&self.clock)).as_secs(),
            ),
        }
    }
}

/// What a rate-limiting middleware answers: pass the request on, or
/// stop it with 429 and a Retry-After.
#[derive(Clone, Copy, Debug, PartialEq, Eq, Structural)]
pub enum MiddlewareDecision {
    Forward,
    TooManyRequests { retry_after_secs: u64 },
}

/// Turns an admission outcome into the HTTP answer: admitted requests
/// go through, denied ones get 429 with the reported wait.
pub fn admission_response(outcome: Result<(), u64>) -> (r: MiddlewareDecision)
    ensures
        outcome is Ok ==> r == MiddlewareDecision::Forward,
        outcome matches Err(w) ==> r == (MiddlewareDecision::TooManyRequests {
            retry_after_secs: w,
        }),
{
    match outcome {
        Ok(_) => MiddlewareDecision::Forward,
        Err(w) => MiddlewareDecision::TooManyRequests { retry_after_secs: w },
    }
}

/// The process-global limiter keyed by remote address.
pub struct IpRateLimitingMiddleware {
    pub limiter: KeyedLimiter,
}

impl IpRateLimitingMiddleware {
    /// Builds the middleware a configuration asks for.
    pub fn from_config(c: &RateLimitingConfig) -> (r: Option<Self>)
        ensures
            r is Some <==> quota_times(*c) > 0,
            r matches Some(mw) ==> limiter_quota(mw.limiter) == (
                quota_times(*c),
                quota_window_secs(*c),
            ),
    {
        match KeyedLimiter::from_config(c) {
            Some(l) => Some(IpRateLimitingMiddleware { limiter: l }),
            None => None,
        }
    }

    /// Builds the middleware from a configuration that must be present,
    /// as the startup path reads it; a zero quota is the unclassified
    /// failure.
    pub fn try_from_config(c: &Option<RateLimitingConfig>) -> (r: Result<
        Self,
        crate::error::GlobalError,
    >)
        requires
            c is Some,
        ensures
            r is Ok <==> quota_times(c.unwrap()) > 0,
            r is Err ==> r matches Err(crate::error::GlobalError::Unknown),
    {
        match c {
            Some(cfg) => match Self::from_config(cfg) {
                Some(mw) => Ok(mw),
                None => Err(crate::error::GlobalError::Unknown),
            },
            None => Err(crate::error::GlobalError::Unknown),
        }
    }

    /// Decides one request from the remote with the given key.
    pub fn handle(&self, remote_key: u64) -> MiddlewareDecision {
        admission_response(self.limiter.check_key_wait(remote_key))
    }
}

/// The per-route limiter keyed by bucket namespace.
pub struct NSRateLimitingMiddleware {
    pub namespace_key: u64,
    pub limiter: KeyedLimiter,
}

impl NSRateLimitingMiddleware {
    /// Builds the middleware for one namespace key.
    pub fn from_config(namespace_key: u64, c: &RateLimitingConfig) -> (r: Option<Self>)
        ensures
            r is Some <==> quota_times(*c) > 0,
            r matches Some(mw) ==> limiter_quota(mw.limiter) == (
                quota_times(*c),
                quota_window_secs(*c),
            ),
    {
        match KeyedLimiter::from_config(c) {
            Some(l) => Some(NSRateLimitingMiddleware { namespace_key, limiter: l }),
            None => None,
        }
    }

    /// Builds the middleware from a configuration that must be present;
    /// a zero quota is the unclassified failure.
    pub fn try_from_config(namespace_key: u64, c: &Option<RateLimitingConfig>) -> (r: Result<
        Self,
        crate::error::GlobalError,
    >)
        requires
            c is Some,
        ensures
            r is Ok <==> quota_times(c.unwrap()) > 0,
            r is Err ==> r matches Err(crate::error::GlobalError::Unknown),
    {
        match c {
            Some(cfg) => match Self::from_config(namespace_key, cfg) {
                Some(mw) => Ok(mw),
                None => Err(crate::error::GlobalError::Unknown),
            },
            None => Err(crate::error::GlobalError::Unknown),
        }
    }

    /// Decides one request on this namespace.
    pub fn handle(&self) -> MiddlewareDecision {
        admission_response(self.limiter.check_key_wait(self.namespace_key))
    }
}

} // verus!
