//! Supervised processes: a circuit breaker that trips after repeated
//! failures and backs off exponentially, and the process state it guards.

use vstd::prelude::*;

verus! {

/// How much protection a process needs.
#[derive(Debug, Clone, Copy, PartialEq, Eq, Structural)]
pub enum SecurityLevel {
    /// Quantum state management.
    Critical,
    /// User data.
    High,
    /// Metrics collection.
    Standard,
}

#[derive(Debug, Clone)]
pub enum ProcessState {
    Running,
    Paused,
    Failed(String),
}

/// Initial and reset back-off, in milliseconds.
pub const INITIAL_BACKOFF_MS: u64 = 100;

/// Failures before a process's breaker trips.
pub const PROCESS_MAX_FAILURES: u32 = 3;

/// Counts failures; once `max_failures` is reached every further failure
/// doubles the back-off, saturating at `u64::MAX`.
pub struct CircuitBreaker {
    failures: u32,
    max_failures: u32,
    backoff_ms: u64,
}

pub open spec fn doubled(b: u64) -> u64 {
    if b <= u64::MAX / 2 {
        (2 * b) as u64
    } else {
        u64::MAX
    }
}

impl CircuitBreaker {
    pub closed spec fn failures(&self) -> u32 {
        self.failures
    }

    pub closed spec fn max_failures(&self) -> u32 {
        self.max_failures
    }

    pub closed spec fn backoff_ms(&self) -> u64 {
        self.backoff_ms
    }

    pub fn new(max_failures: u32) -> (r: Self)
        ensures
            r.failures() == 0,
            r.max_failures() == max_failures,
            r.backoff_ms() == INITIAL_BACKOFF_MS,
    {
        CircuitBreaker { failures: 0, max_failures, backoff_ms: INITIAL_BACKOFF_MS }
    }

    /// Records a failure (the count saturates at `u32::MAX`); returns
    /// whether the breaker is tripped, doubling the back-off if it is.
    pub fn record_failure(&mut self) -> (tripped: bool)
        ensures
            final(self).failures() == if old(self).failures() < u32::MAX {
                (old(self).failures() + 1) as u32
            } else {
                u32::MAX
            },
            final(self).max_failures() == old(self).max_failures(),
            tripped == (final(self).failures() >= final(self).max_failures()),
            final(self).backoff_ms() == if tripped {
                doubled(old(self).backoff_ms())
            } else {
                old(self).backoff_ms()
            },
    {
        if self.failures < u32::MAX {
            self.failures = self.failures + 1;
        }
        if self.failures >= self.max_failures {
            self.backoff_ms = if self.backoff_ms <= u64::MAX / 2 {
                self.backoff_ms * 2
            } else {
                u64::MAX
            };
            true
        } else {
            false
        }
    }

    pub fn reset(&mut self)
        ensures
            final(self).failures() == 0,
            final(self).max_failures() == old(self).max_failures(),
            final(self).backoff_ms() == INITIAL_BACKOFF_MS,
    {
        self.failures = 0;
        self.backoff_ms = INITIAL_BACKOFF_MS;
    }
}

/// A supervised process.
pub struct AOProcess {
    id: String,
    security_level: SecurityLevel,
    state: ProcessState,
    circuit_breaker: CircuitBreaker,
}

impl AOProcess {
    pub closed spec fn id(&self) -> Seq<char> {
        self.id@
    }

    pub closed spec fn level(&self) -> SecurityLevel {
        self.security_level
    }

    pub closed spec fn state(&self) -> ProcessState {
        self.state
    }

    pub closed spec fn breaker(&self) -> CircuitBreaker {
        self.circuit_breaker
    }

    /// A paused process whose breaker trips at the third failure.
    pub fn new(id: String, security_level: SecurityLevel) -> (r: Self)
        ensures
            r.id() == id@,
            r.level() == security_level,
            r.state() is Paused,
            r.breaker().failures() == 0,
            r.breaker().max_failures() == PROCESS_MAX_FAILURES,
            r.breaker().backoff_ms() == INITIAL_BACKOFF_MS,
    {
        AOProcess {
            id,
            security_level,
            state: ProcessState::Paused,
            circuit_breaker: CircuitBreaker::new(PROCESS_MAX_FAILURES),
        }
    }

    /// Sets the process running, whatever its security level.
    pub fn start(&mut self)
        ensures
            final(self).state() is Running,
            final(self).id() == old(self).id(),
            final(self).level() == old(self).level(),
            final(self).breaker() == old(self).breaker(),
    {
        self.state = ProcessState::Running;
    }

    /// Records a failure; once the breaker trips the process is marked
    /// failed with `error`.
    pub fn handle_error(&mut self, error: &str)
        ensures
            final(self).id() == old(self).id(),
            final(self).level() == old(self).level(),
            final(self).breaker().failures() >= final(self).breaker().max_failures() ==> (final(self).state() matches ProcessState::Failed(
                m,
            ) && m@ == error@),
            final(self).breaker().failures() < final(self).breaker().max_failures() ==> final(self).state() == old(self).state(),
            final(self).breaker().max_failures() == old(self).breaker().max_failures(),
    {
        if self.circuit_breaker.record_failure() {
            self.state = ProcessState::Failed(error.to_owned());
        }
    }
}

} // verus!
