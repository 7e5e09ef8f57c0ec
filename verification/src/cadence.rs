//! How often the observer does its work, and how long it waits.
use vstd::prelude::*;

verus! {

/// Markets are discovered again this long after they were discovered.
pub const DISCOVERY_PERIOD_MS: u64 = 10_000;

/// Settlements are looked up again this long after they were looked up.
pub const SETTLEMENT_PERIOD_MS: u64 = 15_000;

/// How many settlements are looked up at a time.
pub const SETTLEMENT_BATCH: usize = 30;

/// The pause between two scans of the markets.
pub const SCAN_PAUSE_MS: u64 = 1_000;

/// How long a signal is left before its orders are followed up on new books.
pub const FOLLOW_UP_DELAY_MS: u64 = 250;

/// The pause between two readings of the spot reference prices.
pub const REFERENCE_PAUSE_MS: u64 = 1_000;

/// The pause before a price stream is connected again.
pub const RECONNECT_PAUSE_MS: u64 = 3_000;

/// The period at which a price stream is kept alive.
pub const HEARTBEAT_PERIOD_MS: u64 = 5_000;

/// How long a proxy may take for each answer.
pub const PROXY_TIMEOUT_MS: u64 = 10_000;

/// How long a simulation on live books may take as a whole.
pub const LIVE_SIMULATION_TIMEOUT_MS: u64 = 20_000;

/// Funding intervals are read again this long after they were read.
pub const FUNDING_PERIOD_MS: u64 = 60_000;

/// The pause between two scans of the perpetual bases.
pub const BASIS_PAUSE_MS: u64 = 3_000;

/// Delivery contracts are discovered again this long after they were discovered.
pub const CONTRACT_PERIOD_MS: u64 = 60_000;

/// The pause between two scans of the delivery bases.
pub const DELIVERY_PAUSE_MS: u64 = 5_000;

/// When a periodic task is due, in milliseconds of a clock that never runs backwards.
#[derive(Clone, Copy, Debug)]
pub struct Timer {
    pub due_at_ms: u128,
}

impl Timer {
    /// A task that is due at once.
    pub fn new() -> (result: Timer)
        ensures
            forall|now_ms: u64| #[trigger] result.due(now_ms),
    {
        Timer { due_at_ms: 0 }
    }

    /// Whether the task is due.
    pub open spec fn due(self, now_ms: u64) -> bool {
        now_ms >= self.due_at_ms
    }

    /// Whether the task is due.
    pub fn is_due(&self, now_ms: u64) -> (result: bool)
        ensures
            result == self.due(now_ms),
    {
        now_ms as u128 >= self.due_at_ms
    }

    /// Puts the task off by its period, as of when it ended.
    pub fn restart(&mut self, ended_at_ms: u64, period_ms: u64)
        ensures
            forall|now_ms: u64| #[trigger]
                final(self).due(now_ms) <==> now_ms >= ended_at_ms + period_ms,
    {
        self.due_at_ms = ended_at_ms as u128 + period_ms as u128;
    }
}

} // verus!
