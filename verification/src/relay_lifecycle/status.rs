//! How a relay is doing.
use crate::error::{ErrorView, RustmoteError};
use crate::relay_lifecycle::bootstrap::{key_in, public_key_in};
use crate::relay_lifecycle::commands::{
    cat_file, cat_file_command, compose_ps_json, compose_ps_json_command,
};
use crate::relay_lifecycle::containers::{
    containers_of, parse_compose_ps_json, ContainerStatus, ContainerView,
};
use crate::relay_lifecycle::load::{
    load_begin, load_step, load_wait, LoadPhase, LoadStep, LoadView, StateLoad,
};
use crate::relay_lifecycle::paths::{key_path, key_path_of};
use crate::relay_lifecycle::state::{RelayState, StateView};
use crate::relay_lifecycle::step::{
    awaits, fits, issue, issue_command, Action, ActionView, Reply, ReplyView, Step, Wait,
};
use crate::text::{opt_view, utf8_lossy, views};
use vstd::prelude::*;

verus! {

/// How a relay is doing.
#[derive(Debug, PartialEq, Eq)]
pub struct StatusReport<T = String, S = RelayState, C = Vec<ContainerStatus>> {
    pub install_path: T,
    pub state: S,
    pub containers: C,
    pub relay_public_key: Option<T>,
}

/// The view of a [`StatusReport`].
pub type StatusReportView = StatusReport<Seq<char>, StateView, Seq<ContainerView>>;

impl View for StatusReport {
    type V = StatusReportView;

    open spec fn view(&self) -> StatusReportView {
        StatusReport {
            install_path: self.install_path@,
            state: self.state@,
            containers: views(self.containers@),
            relay_public_key: opt_view(self.relay_public_key),
        }
    }
}

/// What the inquiry waits for.
#[derive(Debug, Clone, Copy, PartialEq, Eq, Structural)]
pub enum StatusPhase {
    /// The relay's record.
    Load,
    /// The list of its containers.
    Containers,
    /// Its public key.
    Key,
    /// Nothing more.
    Over,
}

/// Asks how a relay is doing.
#[derive(Debug, PartialEq, Eq)]
pub struct Status<D = StateLoad, S = RelayState, C = Vec<ContainerStatus>> {
    pub load: D,
    pub phase: StatusPhase,
    pub state: Option<S>,
    pub containers: C,
}

/// The view of a [`Status`].
pub type StatusView = Status<LoadView, StateView, Seq<ContainerView>>;

/// A step of a report.
pub type StatusStep = Step<ActionView, StatusReportView, ErrorView>;

impl View for Status {
    type V = StatusView;

    open spec fn view(&self) -> StatusView {
        Status {
            load: self.load@,
            phase: self.phase,
            state: match self.state {
                Some(s) => Some(s@),
                None => None,
            },
            containers: views(self.containers@),
        }
    }
}

/// What the report waits for.
pub open spec fn status_wait(m: StatusView) -> Wait {
    match m.phase {
        StatusPhase::Load => load_wait(m.load),
        StatusPhase::Containers | StatusPhase::Key => Wait::Output,
        StatusPhase::Over => Wait::Nothing,
    }
}

/// Whether the record is known where it is needed.
pub open spec fn status_ok(m: StatusView) -> bool {
    m.phase == StatusPhase::Containers || m.phase == StatusPhase::Key ==> m.state is Some
}

/// Goes to a phase where the step asks for something, and else to the end.
pub open spec fn status_at(m: StatusView, phase: StatusPhase, step: StatusStep) -> (
    StatusView,
    StatusStep,
) {
    (
        Status {
            phase: if step is Next {
                phase
            } else {
                StatusPhase::Over
            },
            ..m
        },
        step,
    )
}

/// Goes on from a step of the reading of the record.
pub open spec fn status_loaded(m: StatusView, load: (LoadView, LoadStep)) -> (
    StatusView,
    StatusStep,
) {
    let now = Status { load: load.0, ..m };
    match load.1 {
        Step::Next(action) => status_at(now, StatusPhase::Load, Step::Next(action)),
        Step::Failed(e) => status_at(now, StatusPhase::Over, Step::Failed(e)),
        Step::Done(state) => status_at(
            Status { state: Some(state), ..now },
            StatusPhase::Containers,
            issue(compose_ps_json_command(load.0.install_path)),
        ),
    }
}

/// The first step: read the record.
pub open spec fn status_begin(install_path: Seq<char>) -> (StatusView, StatusStep) {
    status_loaded(
        Status {
            load: StateLoad { install_path, phase: LoadPhase::Over },
            phase: StatusPhase::Over,
            state: None,
            containers: seq![],
        },
        load_begin(install_path),
    )
}

/// The end: the report.
pub open spec fn status_report(m: StatusView, key: Option<Seq<char>>) -> (StatusView, StatusStep) {
    status_at(
        m,
        StatusPhase::Over,
        Step::Done(
            StatusReport {
                install_path: m.load.install_path,
                state: m.state->0,
                containers: m.containers,
                relay_public_key: key,
            },
        ),
    )
}

/// One step of the inquiry. That the containers cannot be listed or the key cannot be read is no
/// failure.
pub open spec fn status_step(m: StatusView, reply: ReplyView) -> (StatusView, StatusStep) {
    match m.phase {
        StatusPhase::Load => status_loaded(m, load_step(m.load, reply)),
        StatusPhase::Key => status_report(m, key_in(reply)),
        _ => match reply {
            Reply::Failed(e) => status_at(m, StatusPhase::Over, Step::Failed(e)),
            Reply::Output(out) => {
                let now = Status {
                    containers: if out.exit_code == 0 {
                        containers_of(utf8_lossy(out.stdout))
                    } else {
                        seq![]
                    },
                    ..m
                };
                match cat_file_command(key_path_of(m.load.install_path)) {
                    Err(_) => status_report(now, None),
                    Ok(command) => status_at(
                        now,
                        StatusPhase::Key,
                        Step::Next(Action::Exec(command)),
                    ),
                }
            },
            _ => arbitrary(),
        },
    }
}

type ExecStep = Step<Action, StatusReport, RustmoteError>;

impl Status {
    fn settle(&mut self, phase: StatusPhase, step: ExecStep) -> (r: ExecStep)
        ensures
            r == step,
            *final(self) == (Status {
                phase: if step is Next {
                    phase
                } else {
                    StatusPhase::Over
                },
                ..*old(self)
            }),
    {
        self.phase = if matches!(step, Step::Next(_)) {
            phase
        } else {
            StatusPhase::Over
        };
        step
    }

    fn loaded(&mut self, step: Step<Action, RelayState, RustmoteError>) -> (r: ExecStep)
        requires
            awaits(step@, load_wait(old(self)@.load)),
        ensures
            (final(self)@, r@) == status_loaded(old(self)@, (old(self)@.load, step@)),
            status_ok(final(self)@),
            awaits(r@, status_wait(final(self)@)),
    {
        match step {
            Step::Next(action) => self.settle(StatusPhase::Load, Step::Next(action)),
            Step::Failed(e) => self.settle(StatusPhase::Over, Step::Failed(e)),
            Step::Done(state) => {
                self.state = Some(state);
                let step = issue_command(compose_ps_json(self.load.install_path.as_str()));
                self.settle(StatusPhase::Containers, step)
            },
        }
    }

    fn report(&mut self, key: Option<String>) -> (r: ExecStep)
        requires
            old(self)@.state is Some,
        ensures
            (final(self)@, r@) == status_report(old(self)@, opt_view(key)),
            status_ok(final(self)@),
            awaits(r@, status_wait(final(self)@)),
    {
        let containers = self.containers.clone();
        assert(containers@ =~= self.containers@);
        let report = StatusReport {
            install_path: self.load.install_path.clone(),
            state: self.state.as_ref().unwrap().clone(),
            containers,
            relay_public_key: key,
        };
        self.settle(StatusPhase::Over, Step::Done(report))
    }

    /// Begins to ask how the relay at an install path is doing.
    pub fn begin(install_path: &str) -> (r: (Status, ExecStep))
        ensures
            (r.0@, r.1@) == status_begin(install_path@),
            status_ok(r.0@),
            awaits(r.1@, status_wait(r.0@)),
    {
        let (load, step) = StateLoad::begin(install_path);
        let mut m = Status {
            load,
            phase: StatusPhase::Over,
            state: None,
            containers: Vec::new(),
        };
        assert(m@.containers =~= Seq::empty());
        let step = m.loaded(step);
        (m, step)
    }

    /// Takes a reply in.
    pub fn step(&mut self, reply: Reply) -> (r: ExecStep)
        requires
            status_ok(old(self)@),
            fits(status_wait(old(self)@), reply@),
        ensures
            (final(self)@, r@) == status_step(old(self)@, reply@),
            status_ok(final(self)@),
            awaits(r@, status_wait(final(self)@)),
    {
        match self.phase {
            StatusPhase::Load => {
                let step = self.load.step(reply);
                self.loaded(step)
            },
            StatusPhase::Key => {
                let key = public_key_in(&reply);
                self.report(key)
            },
            _ => match reply {
                Reply::Failed(e) => self.settle(StatusPhase::Over, Step::Failed(e)),
                Reply::Output(out) => {
                    self.containers = if out.exit_code == 0 {
                        parse_compose_ps_json(out.stdout_string().as_str())
                    } else {
                        Vec::new()
                    };
                    assert(out.exit_code != 0 ==> views(self.containers@) =~= Seq::empty());
                    let path = key_path(self.load.install_path.as_str());
                    match cat_file(path.as_str()) {
                        Err(_) => self.report(None),
                        Ok(command) => self.settle(
                            StatusPhase::Key,
                            Step::Next(Action::Exec(command)),
                        ),
                    }
                },
                _ => {
                    // No other reply fits.
                    assert(false);
                    Step::Failed(RustmoteError::RelayHealthCheckFailed)
                },
            },
        }
    }
}

} // verus!
