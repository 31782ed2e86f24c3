//! The decisions of the supervision loop: when to authenticate, how failures
//! are counted, and how long to wait afterwards. The loop itself, with its
//! probes and sleeps, runs around these functions.
use vstd::prelude::*;

use crate::portal::{first_serving, PortalRegistry};

verus! {

/// Failed authentications in a row that send the supervisor into backoff.
pub const MAX_CONSECUTIVE_FAILURES: u32 = 3;

/// Seconds to let the network settle after a successful authentication.
pub const SETTLE_SECS: u64 = 10;

/// Seconds to wait after too many failed authentications in a row.
pub const BACKOFF_SECS: u64 = 60;

/// The supervisor's phase.
#[derive(Debug, Clone, Copy, PartialEq, Eq, Structural)]
pub enum SupervisorMode {
    Monitoring,
    Authenticating,
    Backoff,
}

/// What one tick observed: the association of the active interface with a
/// target network and, when associated, whether the internet is reachable.
pub enum Observation {
    /// The association query failed.
    QueryFailed,
    /// Not associated with any target network.
    NotAssociated,
    /// Associated with the network, which reaches the internet.
    Online(String),
    /// Associated with the network, which does not reach the internet.
    Offline(String),
}

/// What the loop does after an observation.
#[derive(Debug, Clone, Copy, PartialEq, Eq, Structural)]
pub enum TickAction {
    /// Nothing to do until the next tick.
    Idle,
    /// Offline on a network that no registered engine serves.
    NoPortal,
    /// Run the engine registered at this position.
    Connect(usize),
}

/// What the loop does after an authentication attempt.
#[derive(Debug, Clone, Copy, PartialEq, Eq, Structural)]
pub enum FollowUp {
    /// Sleep this many seconds for the network to settle.
    Settle(u64),
    /// Another tick may follow.
    Continue,
    /// Sleep this many seconds, then call `end_backoff`.
    Backoff(u64),
}

/// The state of the supervision loop, as a mathematical value.
pub struct SupervisorView {
    pub failures: nat,
    pub mode: SupervisorMode,
}

/// The state after an authentication attempt that succeeded or not, and what
/// the loop does next.
pub open spec fn after_connect(s: SupervisorView, success: bool) -> (SupervisorView, FollowUp) {
    if success {
        (SupervisorView { failures: 0, mode: SupervisorMode::Monitoring }, FollowUp::Settle(SETTLE_SECS))
    } else if s.failures + 1 >= MAX_CONSECUTIVE_FAILURES {
        (SupervisorView { failures: s.failures + 1, mode: SupervisorMode::Backoff }, FollowUp::Backoff(BACKOFF_SECS))
    } else {
        (SupervisorView { failures: s.failures + 1, mode: SupervisorMode::Monitoring }, FollowUp::Continue)
    }
}

/// The state once the backoff delay has passed.
pub open spec fn after_backoff(s: SupervisorView) -> SupervisorView {
    SupervisorView { failures: 0, mode: SupervisorMode::Monitoring }
}

/// The supervision loop's own state: consecutive failures and phase.
pub struct Supervisor {
    consecutive_failures: u32,
    mode: SupervisorMode,
}

impl Supervisor {
    pub closed spec fn view(&self) -> SupervisorView {
        SupervisorView { failures: self.consecutive_failures as nat, mode: self.mode }
    }

    /// The counter stays below the threshold outside of backoff, and reaches
    /// it only in backoff.
    pub closed spec fn wf(&self) -> bool {
        &&& self.consecutive_failures <= MAX_CONSECUTIVE_FAILURES
        &&& (self.mode == SupervisorMode::Backoff) == (self.consecutive_failures
            == MAX_CONSECUTIVE_FAILURES)
    }

    /// A supervisor in `Monitoring` with no failure counted.
    pub fn new() -> (r: Self)
        ensures
            r.wf(),
            r.view() == (SupervisorView { failures: 0, mode: SupervisorMode::Monitoring }),
    {
        Supervisor { consecutive_failures: 0, mode: SupervisorMode::Monitoring }
    }

    /// The number of failed authentications in a row.
    pub fn consecutive_failures(&self) -> (r: u32)
        ensures
            r as nat == self.view().failures,
    {
        self.consecutive_failures
    }

    /// The current phase.
    pub fn mode(&self) -> (r: SupervisorMode)
        ensures
            r == self.view().mode,
    {
        self.mode
    }

    /// Decides what one tick does with what it observed. A failed query
    /// changes nothing; no association, or a reachable internet, clears the
    /// failure count; an unreachable internet selects the first registered
    /// engine serving the network.
    pub fn observe(&mut self, obs: &Observation, registry: &PortalRegistry) -> (r: TickAction)
        requires
            old(self).wf(),
            old(self).view().mode == SupervisorMode::Monitoring,
        ensures
            final(self).wf(),
            match obs {
                Observation::QueryFailed => r == TickAction::Idle && final(self).view() == old(
                    self,
                ).view(),
                Observation::NotAssociated | Observation::Online(_) => r == TickAction::Idle
                    && final(self).view() == (SupervisorView {
                    failures: 0,
                    mode: SupervisorMode::Monitoring,
                }),
                Observation::Offline(ssid) => match first_serving(registry.engines(), ssid@) {
                    Some(i) => r == TickAction::Connect(i as usize) && final(self).view() == (
                    SupervisorView { failures: old(self).view().failures, mode: SupervisorMode::Authenticating }),
                    None => r == TickAction::NoPortal && final(self).view() == old(self).view(),
                },
            },
    {
        match obs {
            Observation::QueryFailed => TickAction::Idle,
            Observation::NotAssociated => {
                self.consecutive_failures = 0;
                TickAction::Idle
            },
            Observation::Online(_) => {
                if self.consecutive_failures > 0 {
                    self.consecutive_failures = 0;
                }
                TickAction::Idle
            },
            Observation::Offline(ssid) => match registry.find_for_ssid(ssid.as_str()) {
                Some(i) => {
                    self.mode = SupervisorMode::Authenticating;
                    TickAction::Connect(i)
                },
                None => TickAction::NoPortal,
            },
        }
    }

    /// Records the outcome of an authentication attempt. Success clears the
    /// count and asks for the settle delay; a failure counts, and the one that
    /// reaches the threshold enters `Backoff`.
    pub fn on_connect_result(&mut self, success: bool) -> (r: FollowUp)
        requires
            old(self).wf(),
            old(self).view().mode == SupervisorMode::Authenticating,
        ensures
            final(self).wf(),
            (final(self).view(), r) == after_connect(old(self).view(), success),
    {
        if success {
            self.consecutive_failures = 0;
            self.mode = SupervisorMode::Monitoring;
            FollowUp::Settle(SETTLE_SECS)
        } else {
            self.consecutive_failures = self.consecutive_failures + 1;
            if self.consecutive_failures >= MAX_CONSECUTIVE_FAILURES {
                self.mode = SupervisorMode::Backoff;
                FollowUp::Backoff(BACKOFF_SECS)
            } else {
                self.mode = SupervisorMode::Monitoring;
                FollowUp::Continue
            }
        }
    }

    /// Leaves `Backoff` once its delay has passed: the count starts again.
    pub fn end_backoff(&mut self)
        requires
            old(self).wf(),
            old(self).view().mode == SupervisorMode::Backoff,
        ensures
            final(self).wf(),
            final(self).view() == after_backoff(old(self).view()),
    {
        self.consecutive_failures = 0;
        self.mode = SupervisorMode::Monitoring;
    }
}

/// What a single run does with the network it found.
#[derive(Debug, Clone, Copy, PartialEq, Eq, Structural)]
pub enum OncePlan {
    /// Not associated with any target network: nothing to do.
    NotAssociated,
    /// Associated with a network that no registered engine serves.
    NoPortal,
    /// Run the engine registered at this position.
    Connect(usize),
}

/// Decides what a single run does when associated with `active`, if with
/// any target network: it runs the first registered engine serving it.
pub fn plan_once(active: &Option<String>, registry: &PortalRegistry) -> (r: OncePlan)
    ensures
        match active {
            None => r == OncePlan::NotAssociated,
            Some(ssid) => match first_serving(registry.engines(), ssid@) {
                Some(i) => r == OncePlan::Connect(i as usize),
                None => r == OncePlan::NoPortal,
            },
        },
{
    match active {
        None => OncePlan::NotAssociated,
        Some(ssid) => match registry.find_for_ssid(ssid.as_str()) {
            Some(i) => OncePlan::Connect(i),
            None => OncePlan::NoPortal,
        },
    }
}

/// Milliseconds still to wait before the next tick, so that two ticks start
/// at least `interval_ms` apart.
pub fn wait_before_tick(elapsed_ms: u64, interval_ms: u64) -> (r: u64)
    ensures
        elapsed_ms < interval_ms ==> r == interval_ms - elapsed_ms,
        elapsed_ms >= interval_ms ==> r == 0,
{
    if elapsed_ms < interval_ms {
        interval_ms - elapsed_ms
    } else {
        0
    }
}

/// A failure at two consecutive failures sends the supervisor into backoff,
/// and the counter is zero before the next tick; a success at two
/// consecutive failures clears the counter without backoff.
pub proof fn lemma_third_failure_backs_off(s: SupervisorView)
    requires
        s.failures == 2,
    ensures
        after_connect(s, false).0.mode == SupervisorMode::Backoff,
        after_connect(s, false).1 == FollowUp::Backoff(BACKOFF_SECS),
        after_backoff(after_connect(s, false).0).failures == 0,
        after_backoff(after_connect(s, false).0).mode == SupervisorMode::Monitoring,
        after_connect(s, true).0.failures == 0,
        after_connect(s, true).0.mode == SupervisorMode::Monitoring,
        after_connect(s, true).1 == FollowUp::Settle(SETTLE_SECS),
{
}

} // verus!
