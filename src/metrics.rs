use std::sync::atomic::{AtomicU64, Ordering};

use vstd::prelude::*;

use crate::models::MetricsResponse;

verus! {

/// The counters of the registry.
#[derive(Clone, Copy, Debug, PartialEq, Eq, Structural)]
pub enum Counter {
    Requests,
    Chat,
    CacheHit,
    CacheMiss,
    LocalRoute,
    CloudRoute,
    Fallback,
}

/// Process-wide monotonic counters, shared between requests and bumped with
/// relaxed atomic increments; readers never block writers and no consistency
/// across counters is promised.
pub struct RuntimeMetrics {
    pub requests_total: AtomicU64,
    pub chat_requests_total: AtomicU64,
    pub cache_hits_total: AtomicU64,
    pub cache_misses_total: AtomicU64,
    pub local_routes_total: AtomicU64,
    pub cloud_routes_total: AtomicU64,
    pub fallback_responses_total: AtomicU64,
}

impl RuntimeMetrics {
    /// All counters at zero.
    pub fn new() -> Self {
        RuntimeMetrics {
            requests_total: AtomicU64::new(0),
            chat_requests_total: AtomicU64::new(0),
            cache_hits_total: AtomicU64::new(0),
            cache_misses_total: AtomicU64::new(0),
            local_routes_total: AtomicU64::new(0),
            cloud_routes_total: AtomicU64::new(0),
            fallback_responses_total: AtomicU64::new(0),
        }
    }

    pub fn incr_requests(&self) {
        self.requests_total.fetch_add(1, Ordering::Relaxed);
    }

    pub fn incr_chat(&self) {
        self.chat_requests_total.fetch_add(1, Ordering::Relaxed);
    }

    pub fn incr_cache_hit(&self) {
        self.cache_hits_total.fetch_add(1, Ordering::Relaxed);
    }

    pub fn incr_cache_miss(&self) {
        self.cache_misses_total.fetch_add(1, Ordering::Relaxed);
    }

    pub fn incr_local_route(&self) {
        self.local_routes_total.fetch_add(1, Ordering::Relaxed);
    }

    pub fn incr_cloud_route(&self) {
        self.cloud_routes_total.fetch_add(1, Ordering::Relaxed);
    }

    pub fn incr_fallback(&self) {
        self.fallback_responses_total.fetch_add(1, Ordering::Relaxed);
    }

    /// Bumps the named counter by one.
    pub fn record(&self, counter: Counter) {
        match counter {
            Counter::Requests => self.incr_requests(),
            Counter::Chat => self.incr_chat(),
            Counter::CacheHit => self.incr_cache_hit(),
            Counter::CacheMiss => self.incr_cache_miss(),
            Counter::LocalRoute => self.incr_local_route(),
            Counter::CloudRoute => self.incr_cloud_route(),
            Counter::Fallback => self.incr_fallback(),
        }
    }

    /// Reads every counter.
    pub fn snapshot(&self) -> MetricsResponse {
        MetricsResponse {
            requests_total: self.requests_total.load(Ordering::Relaxed),
            chat_requests_total: self.chat_requests_total.load(Ordering::Relaxed),
            cache_hits_total: self.cache_hits_total.load(Ordering::Relaxed),
            cache_misses_total: self.cache_misses_total.load(Ordering::Relaxed),
            local_routes_total: self.local_routes_total.load(Ordering::Relaxed),
            cloud_routes_total: self.cloud_routes_total.load(Ordering::Relaxed),
            fallback_responses_total: self.fallback_responses_total.load(Ordering::Relaxed),
        }
    }
}

/// The counts after one bump of `c`.
pub open spec fn bumped(m: MetricsResponse, c: Counter) -> MetricsResponse {
    match c {
        Counter::Requests => MetricsResponse { requests_total: m.requests_total.wrapping_add(1), ..m },
        Counter::Chat => MetricsResponse { chat_requests_total: m.chat_requests_total.wrapping_add(1), ..m },
        Counter::CacheHit => MetricsResponse { cache_hits_total: m.cache_hits_total.wrapping_add(1), ..m },
        Counter::CacheMiss => MetricsResponse { cache_misses_total: m.cache_misses_total.wrapping_add(1), ..m },
        Counter::LocalRoute => MetricsResponse { local_routes_total: m.local_routes_total.wrapping_add(1), ..m },
        Counter::CloudRoute => MetricsResponse { cloud_routes_total: m.cloud_routes_total.wrapping_add(1), ..m },
        Counter::Fallback => MetricsResponse {
            fallback_responses_total: m.fallback_responses_total.wrapping_add(1),
            ..m
        },
    }
}

impl MetricsResponse {
    /// All counts at zero.
    pub fn zero() -> (r: Self)
        ensures
            r.requests_total == 0 && r.chat_requests_total == 0 && r.cache_hits_total == 0
                && r.cache_misses_total == 0 && r.local_routes_total == 0 && r.cloud_routes_total == 0
                && r.fallback_responses_total == 0,
    {
        MetricsResponse {
            requests_total: 0,
            chat_requests_total: 0,
            cache_hits_total: 0,
            cache_misses_total: 0,
            local_routes_total: 0,
            cloud_routes_total: 0,
            fallback_responses_total: 0,
        }
    }

    /// Counts one more `counter` event, wrapping as the atomic counters do.
    pub fn count(&mut self, counter: Counter)
        ensures
            *final(self) == bumped(*old(self), counter),
    {
        match counter {
            Counter::Requests => self.requests_total = self.requests_total.wrapping_add(1),
            Counter::Chat => self.chat_requests_total = self.chat_requests_total.wrapping_add(1),
            Counter::CacheHit => self.cache_hits_total = self.cache_hits_total.wrapping_add(1),
            Counter::CacheMiss => self.cache_misses_total = self.cache_misses_total.wrapping_add(1),
            Counter::LocalRoute => self.local_routes_total = self.local_routes_total.wrapping_add(1),
            Counter::CloudRoute => self.cloud_routes_total = self.cloud_routes_total.wrapping_add(1),
            Counter::Fallback => self.fallback_responses_total = self.fallback_responses_total.wrapping_add(1),
        }
    }
}

} // verus!
