//! Readiness probing: the port to probe and the generation counter that
//! cancels probes in flight when the service restarts.
use vstd::prelude::*;

use std::sync::atomic::AtomicU64;
use std::sync::atomic::Ordering;
use std::sync::Arc;

verus! {

/// The default start-up budget, in seconds.
pub const DEFAULT_STARTUP_TIMEOUT_SECS: u64 = 120;

/// Consecutive failed probes that count as a hang.
pub const DEFAULT_STUCK_THRESHOLD: u32 = 20;

/// A readiness probe for one port.
///
/// Clones share the generation counter: a bump through any of them cancels
/// the probes in flight through all of them.
pub struct ReadyProbe {
    port: u16,
    generation: Arc<AtomicU64>,
}

/// Another handle on the same counter (`Arc::clone`).
#[verifier::external_body]
fn share_counter(c: &Arc<AtomicU64>) -> (r: Arc<AtomicU64>)
    ensures
        r == *c,
{
    Arc::clone(c)
}

impl ReadyProbe {
    /// The port probed.
    pub closed spec fn port_spec(&self) -> u16 {
        self.port
    }

    /// The two probes share one generation counter.
    pub closed spec fn shares_counter(&self, other: &ReadyProbe) -> bool {
        self.generation == other.generation
    }

    pub fn new(port: u16) -> (r: ReadyProbe)
        ensures
            r.port_spec() == port,
    {
        ReadyProbe { port, generation: Arc::new(AtomicU64::new(0)) }
    }

    /// Probes another port; the counter stays shared with every clone.
    pub fn set_port(&mut self, port: u16)
        ensures
            final(self).port_spec() == port,
            final(self).shares_counter(old(self)),
    {
        self.port = port;
    }

    /// The port probed.
    pub fn port(&self) -> (r: u16)
        ensures
            r == self.port_spec(),
    {
        self.port
    }

    /// Advances the generation (before each start or restart) and returns the
    /// new value; probes of earlier generations give up. The counter is an
    /// atomic shared by every clone and changed by other threads, and vstd
    /// models nothing of the values inside std atomics, so the value returned
    /// is left unsaid.
    pub fn bump_generation(&self) -> u64 {
        self.generation.fetch_add(1, Ordering::SeqCst).wrapping_add(1)
    }

    /// The current generation: a load of the shared atomic counter, whose value
    /// other threads change and vstd does not model, so it is left unsaid.
    pub fn generation(&self) -> u64 {
        self.generation.load(Ordering::SeqCst)
    }
}

impl Clone for ReadyProbe {
    fn clone(&self) -> (r: Self)
        ensures
            r.port_spec() == self.port_spec(),
            r.shares_counter(self),
    {
        ReadyProbe { port: self.port, generation: share_counter(&self.generation) }
    }
}

/// Why waiting for readiness ended without success.
#[derive(Debug, Clone, Copy, PartialEq, Eq, Structural)]
pub enum ProbeError {
    /// The budget ran out.
    Timeout,
    /// The service restarted meanwhile (the generation changed).
    GenerationChanged,
}

impl ProbeError {
    pub fn message(&self) -> (r: &'static str)
        ensures
            r@ == match *self {
                ProbeError::Timeout => "等待服务就绪超时"@,
                ProbeError::GenerationChanged => "服务已重启（代际号变化），本次探测作废"@,
            },
    {
        match self {
            ProbeError::Timeout => "等待服务就绪超时",
            ProbeError::GenerationChanged => "服务已重启（代际号变化），本次探测作废",
        }
    }
}

/// The pause before the next probe: 200 ms, then doubling up to one second,
/// never past the remaining budget.
pub fn next_probe_interval_ms(interval_ms: u64, remaining_ms: u64) -> (r: (u64, u64))
    ensures
        r.0 == if interval_ms < remaining_ms {
            interval_ms
        } else {
            remaining_ms
        },
        r.1 == if interval_ms * 2 < 1000 {
            interval_ms * 2
        } else {
            1000
        },
{
    let sleep = if interval_ms < remaining_ms {
        interval_ms
    } else {
        remaining_ms
    };
    let next = if interval_ms >= 500 {
        1000
    } else {
        interval_ms * 2
    };
    (sleep, next)
}

/// The longest single connection attempt, in milliseconds.
pub const PROBE_CEILING_MS: u64 = 800;

/// The budget of the next connection attempt: none once the wait's budget is
/// spent (the wait then ends in `Timeout`), else what is left, at most
/// [`PROBE_CEILING_MS`].
pub fn probe_budget_ms(remaining_ms: u64) -> (r: Option<u64>)
    ensures
        r == if remaining_ms == 0 {
            None::<u64>
        } else if remaining_ms < PROBE_CEILING_MS {
            Some(remaining_ms)
        } else {
            Some(PROBE_CEILING_MS)
        },
{
    if remaining_ms == 0 {
        None
    } else if remaining_ms < PROBE_CEILING_MS {
        Some(remaining_ms)
    } else {
        Some(PROBE_CEILING_MS)
    }
}

/// What the wait for readiness does after a connection attempt.
#[derive(Debug, Clone, Copy, PartialEq, Eq, Structural)]
pub enum ProbeStep {
    /// The port accepted the connection: the service is ready.
    Ready,
    /// The wait ends without success.
    GiveUp(ProbeError),
    /// Sleep, then try again with the next interval.
    Pause { sleep_ms: u64, next_interval_ms: u64 },
}

/// The step after a connection attempt: ready when it connected; else given
/// up when the generation moved on since the wait began, or when the budget is
/// spent; else a pause of the current interval (at most what is left), with
/// the interval doubled up to one second for the attempt after it.
pub fn after_probe(connected: bool, generation_at_start: u64, generation_now: u64, remaining_ms: u64, interval_ms: u64) -> (r: ProbeStep)
    ensures
        r == if connected {
            ProbeStep::Ready
        } else if generation_now != generation_at_start {
            ProbeStep::GiveUp(ProbeError::GenerationChanged)
        } else if remaining_ms == 0 {
            ProbeStep::GiveUp(ProbeError::Timeout)
        } else {
            ProbeStep::Pause {
                sleep_ms: if interval_ms < remaining_ms { interval_ms } else { remaining_ms },
                next_interval_ms: if interval_ms * 2 < 1000 { (interval_ms * 2) as u64 } else { 1000 },
            }
        },
{
    if connected {
        ProbeStep::Ready
    } else if generation_now != generation_at_start {
        ProbeStep::GiveUp(ProbeError::GenerationChanged)
    } else if remaining_ms == 0 {
        ProbeStep::GiveUp(ProbeError::Timeout)
    } else {
        let (sleep_ms, next_interval_ms) = next_probe_interval_ms(interval_ms, remaining_ms);
        ProbeStep::Pause { sleep_ms, next_interval_ms }
    }
}

} // verus!
