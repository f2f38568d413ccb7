//! Whether the relay's services take connections.
use crate::error::{ErrorView, RustmoteError};
use crate::relay_lifecycle::commands::{tcp_probe, tcp_probe_command};
use crate::relay_lifecycle::step::{awaits, fits, Action, ActionView, Reply, ReplyView, Step, Wait};
use crate::time::TimeSpan;
use vstd::prelude::*;

verus! {

/// Port of the signalling service.
pub const HBBS_PORT: u16 = 21_116;

/// Port of the relay service.
pub const HBBR_PORT: u16 = 21_117;

/// Seconds after which a health check gives up.
pub const DEFAULT_HEALTH_CHECK_TIMEOUT: u64 = 30;

/// Seconds between two rounds of a health check.
pub const DEFAULT_HEALTH_CHECK_INTERVAL: u64 = 1;

/// What a health check waits for.
#[derive(Debug, Clone, Copy, PartialEq, Eq, Structural)]
pub enum HealthPhase {
    /// The time at which it begins.
    Begin,
    /// The probe of the signalling service.
    Hbbs,
    /// The probe of the relay service.
    Hbbr,
    /// The time after a probe that failed.
    Late,
    /// The next round.
    Rest,
    /// Nothing more.
    Over,
}

/// A health check: both ports are probed, round after round, until both take a connection in one
/// round or the time is up.
#[derive(Debug, Clone, Copy, PartialEq, Eq)]
pub struct HealthCheck {
    pub timeout: TimeSpan,
    pub interval: TimeSpan,
    pub deadline: u128,
    pub phase: HealthPhase,
}

/// A step of a health check.
pub type HealthStep = Step<ActionView, (), ErrorView>;

/// What the health check waits for.
pub open spec fn health_wait(h: HealthCheck) -> Wait {
    match h.phase {
        HealthPhase::Begin | HealthPhase::Late => Wait::Timer,
        HealthPhase::Hbbs | HealthPhase::Hbbr => Wait::Output,
        HealthPhase::Rest => Wait::Rest,
        HealthPhase::Over => Wait::Nothing,
    }
}

/// One step of a health check.
pub open spec fn health_step(h: HealthCheck, reply: ReplyView) -> (HealthCheck, HealthStep) {
    let over = HealthCheck { phase: HealthPhase::Over, ..h };
    let round = HealthCheck { phase: HealthPhase::Hbbs, ..h };
    match reply {
        Reply::Failed(e) => (over, Step::Failed(e)),
        Reply::Timer(t) => if h.phase == HealthPhase::Begin {
            (
                HealthCheck { deadline: (t + h.timeout.spec_nanos()) as u128, ..round },
                Step::Next(Action::Exec(tcp_probe_command(HBBS_PORT))),
            )
        } else if t >= h.deadline {
            (over, Step::Failed(RustmoteError::RelayHealthCheckFailed))
        } else {
            (HealthCheck { phase: HealthPhase::Rest, ..h }, Step::Next(Action::Sleep(h.interval)))
        },
        Reply::Output(out) => if out.exit_code != 0 {
            (HealthCheck { phase: HealthPhase::Late, ..h }, Step::Next(Action::ReadTimer))
        } else if h.phase == HealthPhase::Hbbs {
            (
                HealthCheck { phase: HealthPhase::Hbbr, ..h },
                Step::Next(Action::Exec(tcp_probe_command(HBBR_PORT))),
            )
        } else {
            (over, Step::Done(()))
        },
        _ => (round, Step::Next(Action::Exec(tcp_probe_command(HBBS_PORT)))),
    }
}

impl HealthCheck {
    /// A health check that has not begun: it asks for the time first.
    pub fn new(timeout: TimeSpan, interval: TimeSpan) -> (r: HealthCheck)
        ensures
            r == (HealthCheck { timeout, interval, deadline: 0, phase: HealthPhase::Begin }),
    {
        HealthCheck { timeout, interval, deadline: 0, phase: HealthPhase::Begin }
    }

    /// Takes a reply in.
    pub fn step(&mut self, reply: Reply) -> (r: Step<Action, (), RustmoteError>)
        requires
            fits(health_wait(*old(self)), reply@),
        ensures
            (*final(self), r@) == health_step(*old(self), reply@),
            awaits(r@, health_wait(*final(self))),
    {
        match reply {
            Reply::Failed(e) => {
                self.phase = HealthPhase::Over;
                Step::Failed(e)
            },
            Reply::Timer(t) => match self.phase {
                HealthPhase::Begin => {
                    let span: u128 = self.timeout.nanos();
                    proof {
                        self.timeout.lemma_bound();
                    }
                    self.deadline = t as u128 + span;
                    self.phase = HealthPhase::Hbbs;
                    Step::Next(Action::Exec(tcp_probe(HBBS_PORT)))
                },
                _ => if t as u128 >= self.deadline {
                    self.phase = HealthPhase::Over;
                    Step::Failed(RustmoteError::RelayHealthCheckFailed)
                } else {
                    self.phase = HealthPhase::Rest;
                    Step::Next(Action::Sleep(self.interval))
                },
            },
            Reply::Output(out) => if out.exit_code != 0 {
                self.phase = HealthPhase::Late;
                Step::Next(Action::ReadTimer)
            } else {
                match self.phase {
                    HealthPhase::Hbbs => {
                        self.phase = HealthPhase::Hbbr;
                        Step::Next(Action::Exec(tcp_probe(HBBR_PORT)))
                    },
                    _ => {
                        self.phase = HealthPhase::Over;
                        Step::Done(())
                    },
                }
            },
            _ => {
                self.phase = HealthPhase::Hbbs;
                Step::Next(Action::Exec(tcp_probe(HBBS_PORT)))
            },
        }
    }
}

} // verus!
