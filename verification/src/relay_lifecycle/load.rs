//! Reading the record of an installed relay.
use crate::error::{ErrorView, RustmoteError};
use crate::relay_lifecycle::commands::{
    cat_file, cat_file_command, test_file_exists, test_file_exists_command,
};
use crate::relay_lifecycle::paths::{state_path, state_path_of};
use crate::relay_lifecycle::state::{RelayState, StateView};
use crate::relay_lifecycle::step::{
    awaits, fits, issue, issue_command, Action, ActionView, Reply, ReplyView, Step, Wait,
};
use crate::session::command_failed;
use crate::text::utf8_lossy;
use vstd::prelude::*;

verus! {

/// What the reading waits for.
#[derive(Debug, Clone, Copy, PartialEq, Eq, Structural)]
pub enum LoadPhase {
    /// Whether the file is there.
    Probe,
    /// Its text.
    Read,
    /// What the text holds.
    Decode,
    /// Nothing more.
    Over,
}

/// Reads the record of the relay at an install path.
#[derive(Debug, PartialEq, Eq)]
pub struct StateLoad<T = String> {
    pub install_path: T,
    pub phase: LoadPhase,
}

/// The view of a [`StateLoad`].
pub type LoadView = StateLoad<Seq<char>>;

/// A step of the reading of a record.
pub type LoadStep = Step<ActionView, StateView, ErrorView>;

impl View for StateLoad {
    type V = StateLoad<Seq<char>>;

    open spec fn view(&self) -> StateLoad<Seq<char>> {
        StateLoad { install_path: self.install_path@, phase: self.phase }
    }
}

/// What the reading waits for.
pub open spec fn load_wait(m: LoadView) -> Wait {
    match m.phase {
        LoadPhase::Probe | LoadPhase::Read => Wait::Output,
        LoadPhase::Decode => Wait::State,
        LoadPhase::Over => Wait::Nothing,
    }
}

/// The phase that a step leads to: the given one where the machine goes on.
pub open spec fn load_at(install_path: Seq<char>, phase: LoadPhase, step: LoadStep) -> (
    LoadView,
    LoadStep,
) {
    (
        StateLoad {
            install_path,
            phase: if step is Next {
                phase
            } else {
                LoadPhase::Over
            },
        },
        step,
    )
}

/// The first step: look whether the file is there.
pub open spec fn load_begin(install_path: Seq<char>) -> (LoadView, LoadStep) {
    load_at(
        install_path,
        LoadPhase::Probe,
        issue(test_file_exists_command(state_path_of(install_path))),
    )
}

/// One step of the reading.
pub open spec fn load_step(m: LoadView, reply: ReplyView) -> (LoadView, LoadStep) {
    let path = state_path_of(m.install_path);
    let read = cat_file_command(path);
    match reply {
        Reply::Failed(e) => load_at(m.install_path, LoadPhase::Over, Step::Failed(e)),
        Reply::State(state) => load_at(m.install_path, LoadPhase::Over, Step::Done(state)),
        Reply::Output(out) => if m.phase == LoadPhase::Probe {
            load_at(
                m.install_path,
                LoadPhase::Read,
                if out.exit_code != 0 {
                    Step::Failed(RustmoteError::RelayNotInstalled(m.install_path))
                } else {
                    issue(read)
                },
            )
        } else {
            load_at(
                m.install_path,
                LoadPhase::Decode,
                match read {
                    Err(e) => Step::Failed(e),
                    Ok(command) => if out.exit_code != 0 {
                        Step::Failed(command_failed(command, out))
                    } else {
                        Step::Next(Action::DecodeState { text: utf8_lossy(out.stdout), path })
                    },
                },
            )
        },
        _ => arbitrary(),
    }
}

impl StateLoad {
    /// Begins to read the record of the relay at an install path.
    pub fn begin(install_path: &str) -> (r: (StateLoad, Step<Action, RelayState, RustmoteError>))
        ensures
            (r.0@, r.1@) == load_begin(install_path@),
            awaits(r.1@, load_wait(r.0@)),
    {
        let path = state_path(install_path);
        let step = issue_command(test_file_exists(path.as_str()));
        let phase = if matches!(step, Step::Next(_)) {
            LoadPhase::Probe
        } else {
            LoadPhase::Over
        };
        (StateLoad { install_path: install_path.to_owned(), phase }, step)
    }

    /// Takes a reply in.
    pub fn step(&mut self, reply: Reply) -> (r: Step<Action, RelayState, RustmoteError>)
        requires
            fits(load_wait(old(self)@), reply@),
        ensures
            (final(self)@, r@) == load_step(old(self)@, reply@),
            awaits(r@, load_wait(final(self)@)),
    {
        let path = state_path(self.install_path.as_str());
        match reply {
            Reply::Failed(e) => {
                self.phase = LoadPhase::Over;
                Step::Failed(e)
            },
            Reply::State(state) => {
                self.phase = LoadPhase::Over;
                Step::Done(state)
            },
            Reply::Output(out) => match self.phase {
                LoadPhase::Probe => {
                    if out.exit_code != 0 {
                        self.phase = LoadPhase::Over;
                        Step::Failed(RustmoteError::RelayNotInstalled(self.install_path.clone()))
                    } else {
                        let step = issue_command(cat_file(path.as_str()));
                        self.phase = if matches!(step, Step::Next(_)) {
                            LoadPhase::Read
                        } else {
                            LoadPhase::Over
                        };
                        step
                    }
                },
                _ => match cat_file(path.as_str()) {
                    Err(e) => {
                        self.phase = LoadPhase::Over;
                        Step::Failed(e)
                    },
                    Ok(command) => match out.ok_for(command.as_str()) {
                        Err(e) => {
                            self.phase = LoadPhase::Over;
                            Step::Failed(e)
                        },
                        Ok(out) => {
                            self.phase = LoadPhase::Decode;
                            Step::Next(Action::DecodeState { text: out.stdout_string(), path })
                        },
                    },
                },
            },
            _ => {
                // No other reply fits.
                assert(false);
                Step::Failed(RustmoteError::RelayNotInstalled(path))
            },
        }
    }
}

} // verus!
