use vstd::prelude::*;

verus! {

/// Tuning options for a cache: how often the maintenance loop wakes up, how
/// many flush cycles pass between two garbage-collection sweeps, and an
/// optional cap on the time-to-live a caller may request.
#[derive(Clone, Debug)]
pub struct CacheConfig {
    /// Milliseconds between two maintenance cycles.
    pub flush_interval_ms: u64,
    /// A garbage-collection sweep runs every this-many flush cycles;
    /// must be positive.
    pub flush_gc_ratio: u64,
    /// If set, every requested time-to-live is clamped to this many seconds.
    pub max_ttl_secs: Option<u64>,
}

impl CacheConfig {
    /// A configuration is usable when the garbage-collection cadence is
    /// positive.
    pub open spec fn wf(self) -> bool {
        self.flush_gc_ratio > 0
    }
}

impl Default for CacheConfig {
    fn default() -> (r: Self)
        ensures
            r.flush_interval_ms == 10000,
            r.flush_gc_ratio == 30,
            r.max_ttl_secs is None,
            r.wf(),
    {
        CacheConfig { flush_interval_ms: 10000, flush_gc_ratio: 30, max_ttl_secs: None }
    }
}

} // verus!
