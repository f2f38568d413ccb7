//! Updating a relay, with a way back.
use crate::error::{ErrorView, RustmoteError};
use crate::path::{join_path, path_join};
use crate::relay_lifecycle::backups::{expired_backups, expired_in};
use crate::relay_lifecycle::check::{
    any_newer, check_begin, check_ok, check_step, check_wait, CheckStep, CheckUpdatesReport,
    CheckView, ImageUpdate, ImageUpdateView, UpdateCheck,
};
use crate::relay_lifecycle::commands::{
    compose_config, compose_config_command, compose_pull, compose_pull_command, compose_up,
    compose_up_command, copy_file, copy_file_command, list_backups, list_backups_command, mkdir_p,
    mkdir_p_command, remove_tree, remove_tree_command, write_file, write_file_command,
};
use crate::relay_lifecycle::compose::{repin_compose, repinned};
use crate::relay_lifecycle::health::{health_step, health_wait, HealthCheck, HealthPhase};
use crate::relay_lifecycle::load::{
    load_begin, load_step, load_wait, LoadPhase, LoadStep, LoadView, StateLoad,
};
use crate::relay_lifecycle::paths::{
    backup_dir_for, backup_dir_of, backups_path, backups_path_of, compose_path, compose_path_of,
    state_path, state_path_of,
};
use crate::relay_lifecycle::state::{updated_state, ImagePin, PinView, RelayState, StateView};
use crate::relay_lifecycle::step::{
    all_built, awaits, fits, issue, issue_command, lemma_all_built_len, outcomes, queue_step,
    Action, ActionView, CommandQueue, Reply, ReplyView, Step, Wait,
};
use crate::session::{command_failed, ExecOutput, ExecOutputView};
use crate::text::{clone_all, lemma_views_push, opt_clone, opt_view, utf8_lossy, views};
use crate::time::{TimeSpan, Timestamp};
use vstd::prelude::*;
use vstd::utf8::encode_utf8;

verus! {

/// What is to be updated, and how.
#[derive(Debug, PartialEq, Eq)]
pub struct UpdateOptions<T = String, L = Vec<String>> {
    pub install_path: T,
    pub compose_template: T,
    pub services: L,
    pub repo: T,
    /// Whether the update is confirmed beforehand.
    pub assume_yes: bool,
    /// Whether somebody is there to confirm it.
    pub is_tty: bool,
    pub skip_backup: bool,
    pub rustmote_version: T,
}

/// The view of a [`UpdateOptions`].
pub type UpdateOptionsView = UpdateOptions<Seq<char>, Seq<Seq<char>>>;

impl View for UpdateOptions {
    type V = UpdateOptionsView;

    open spec fn view(&self) -> UpdateOptionsView {
        UpdateOptions {
            install_path: self.install_path@,
            compose_template: self.compose_template@,
            services: views(self.services@),
            repo: self.repo@,
            assume_yes: self.assume_yes,
            is_tty: self.is_tty,
            skip_backup: self.skip_backup,
            rustmote_version: self.rustmote_version@,
        }
    }
}

/// What an update came to.
#[derive(Debug, PartialEq, Eq)]
pub struct UpdateReport<T = String, S = RelayState, L = Vec<String>> {
    pub install_path: T,
    pub changed: bool,
    pub new_state: S,
    pub backup_dir: Option<T>,
    /// Always false in a report: an update that was rolled back fails.
    pub rolled_back: bool,
    /// The old backups that were removed.
    pub gc_deleted: L,
}

/// The view of a [`UpdateReport`].
pub type UpdateReportView = UpdateReport<Seq<char>, StateView, Seq<Seq<char>>>;

impl View for UpdateReport {
    type V = UpdateReportView;

    open spec fn view(&self) -> UpdateReportView {
        UpdateReport {
            install_path: self.install_path@,
            changed: self.changed,
            new_state: self.new_state@,
            backup_dir: opt_view(self.backup_dir),
            rolled_back: self.rolled_back,
            gc_deleted: views(self.gc_deleted@),
        }
    }
}

/// What an update waits for.
#[derive(Debug, Clone, Copy, PartialEq, Eq, Structural)]
pub enum UpdatePhase {
    /// Whether there are newer images.
    Check,
    /// The record of the relay, which is up to date.
    Current,
    /// The time of the update.
    Clock,
    /// The commands that make the backup.
    Backup,
    /// The effective compose file, for the backup.
    Config,
    /// The command that puts it there.
    Snapshot,
    /// The record of the relay before the update.
    Load,
    /// The command that writes the new compose file.
    Write,
    /// The new record, as text.
    Encode,
    /// The commands that write the record, fetch the images and start the services.
    Start,
    /// The health check of the new services.
    Health,
    /// The old record, as text, where no backup holds it.
    Recover,
    /// The commands that bring the old services back.
    Rollback,
    /// The health check of the old services.
    RollbackHealth,
    /// The list of the backups.
    List,
    /// The command that removes an old one.
    Remove,
    /// Nothing more.
    Over,
}

/// Updates a relay.
#[derive(Debug, PartialEq, Eq)]
pub struct Update<
    O = UpdateOptions,
    C = UpdateCheck,
    D = StateLoad,
    I = Vec<ImageUpdate>,
    T = String,
    S = RelayState,
    Q = CommandQueue,
    L = Vec<String>,
    N = usize,
> {
    pub opts: O,
    pub health: HealthCheck,
    pub phase: UpdatePhase,
    pub check: C,
    pub load: D,
    /// The images and the latest ones, once there are newer ones.
    pub images: I,
    pub now: Option<Timestamp>,
    pub backup_dir: Option<T>,
    pub old_state: Option<S>,
    pub new_state: Option<S>,
    pub queue: Q,
    /// The backups that are to be removed.
    pub expired: L,
    /// How many of them are.
    pub removed: N,
}

/// The view of a [`Update`].
pub type UpdateView = Update<
    UpdateOptionsView,
    CheckView,
    LoadView,
    Seq<ImageUpdateView>,
    Seq<char>,
    StateView,
    Seq<Seq<char>>,
    Seq<Seq<char>>,
    nat,
>;

/// A step of an update.
pub type UpdateStep = Step<ActionView, UpdateReportView, ErrorView>;

/// The view of an optional record.
pub open spec fn opt_state(state: Option<RelayState>) -> Option<StateView> {
    match state {
        Some(s) => Some(s@),
        None => None,
    }
}

impl View for Update {
    type V = UpdateView;

    open spec fn view(&self) -> UpdateView {
        Update {
            opts: self.opts@,
            health: self.health,
            phase: self.phase,
            check: self.check@,
            load: self.load@,
            images: views(self.images@),
            now: self.now,
            backup_dir: opt_view(self.backup_dir),
            old_state: opt_state(self.old_state),
            new_state: opt_state(self.new_state),
            queue: self.queue@,
            expired: views(self.expired@),
            removed: self.removed as nat,
        }
    }
}

/// What the update waits for.
pub open spec fn update_wait(m: UpdateView) -> Wait {
    match m.phase {
        UpdatePhase::Check => check_wait(m.check),
        UpdatePhase::Current | UpdatePhase::Load => load_wait(m.load),
        UpdatePhase::Clock => Wait::Clock,
        UpdatePhase::Encode | UpdatePhase::Recover => Wait::Encoded,
        UpdatePhase::Health | UpdatePhase::RollbackHealth => health_wait(m.health),
        UpdatePhase::Over => Wait::Nothing,
        _ => Wait::Output,
    }
}

/// What is known in which phase.
pub open spec fn update_ok(m: UpdateView) -> bool {
    &&& m.phase == UpdatePhase::Check ==> check_ok(m.check)
    &&& match m.phase {
        UpdatePhase::Check | UpdatePhase::Current | UpdatePhase::Clock | UpdatePhase::Over => true,
        UpdatePhase::Backup | UpdatePhase::Config | UpdatePhase::Snapshot => m.now is Some
            && m.backup_dir is Some,
        UpdatePhase::Load => m.now is Some,
        _ => m.now is Some && m.new_state is Some && m.old_state is Some,
    }
    &&& match m.phase {
        UpdatePhase::Backup
        | UpdatePhase::Snapshot
        | UpdatePhase::Write
        | UpdatePhase::Start
        | UpdatePhase::Rollback => m.queue.len() > 0,
        _ => true,
    }
    &&& match m.phase {
        UpdatePhase::Health
        | UpdatePhase::Recover
        | UpdatePhase::Rollback
        | UpdatePhase::RollbackHealth
        | UpdatePhase::List
        | UpdatePhase::Remove
        | UpdatePhase::Over => true,
        _ => m.health.phase == HealthPhase::Begin,
    }
    &&& m.phase == UpdatePhase::Remove ==> m.removed < m.expired.len()
}

/// Goes to a phase where the step asks for something, and else to the end.
pub open spec fn update_at(m: UpdateView, phase: UpdatePhase, step: UpdateStep) -> (
    UpdateView,
    UpdateStep,
) {
    (
        Update {
            phase: if step is Next {
                phase
            } else {
                UpdatePhase::Over
            },
            ..m
        },
        step,
    )
}

/// Starts to run commands.
pub open spec fn update_run(
    m: UpdateView,
    phase: UpdatePhase,
    commands: Result<Seq<Seq<char>>, ErrorView>,
) -> (UpdateView, UpdateStep) {
    match commands {
        Err(e) => update_at(m, phase, Step::Failed(e)),
        Ok(queue) => update_at(Update { queue, ..m }, phase, Step::Next(Action::Exec(queue[0]))),
    }
}

/// The pins of the latest images.
pub open spec fn new_pins(images: Seq<ImageUpdateView>, at: Timestamp) -> Seq<PinView> {
    Seq::new(
        images.len(),
        |i: int|
            ImagePin {
                service: images[i].service,
                repo: images[i].repo,
                tag: images[i].latest_tag,
                digest: images[i].latest_digest,
                pinned_at: at,
            },
    )
}

/// The commands that make a backup: its directory, and copies of the compose file and the record.
pub open spec fn backup_commands(install_path: Seq<char>, dir: Seq<char>) -> Result<
    Seq<Seq<char>>,
    ErrorView,
> {
    all_built(
        seq![
            mkdir_p_command(dir),
            copy_file_command(
                compose_path_of(install_path),
                path_join(dir, "docker-compose.yml"@),
            ),
            copy_file_command(
                state_path_of(install_path),
                path_join(dir, ".rustmote-state.toml"@),
            ),
        ],
    )
}

/// The command that adds the effective compose file to a backup.
pub open spec fn snapshot_commands(dir: Seq<char>, config: Seq<u8>) -> Result<
    Seq<Seq<char>>,
    ErrorView,
> {
    all_built(seq![write_file_command(path_join(dir, "compose-config.yml"@), config)])
}

/// The command that writes a compose file.
pub open spec fn compose_commands(install_path: Seq<char>, compose: Seq<char>) -> Result<
    Seq<Seq<char>>,
    ErrorView,
> {
    all_built(seq![write_file_command(compose_path_of(install_path), encode_utf8(compose))])
}

/// The commands that write a record and switch to the images of the compose file.
pub open spec fn switch_commands(install_path: Seq<char>, record: Seq<char>) -> Result<
    Seq<Seq<char>>,
    ErrorView,
> {
    all_built(
        seq![
            write_file_command(state_path_of(install_path), encode_utf8(record)),
            compose_pull_command(install_path),
            compose_up_command(install_path),
        ],
    )
}

/// The commands that bring a backup back and start its services.
pub open spec fn restore_commands(install_path: Seq<char>, dir: Seq<char>) -> Result<
    Seq<Seq<char>>,
    ErrorView,
> {
    all_built(
        seq![
            copy_file_command(
                path_join(dir, "docker-compose.yml"@),
                compose_path_of(install_path),
            ),
            copy_file_command(
                path_join(dir, ".rustmote-state.toml"@),
                state_path_of(install_path),
            ),
            compose_up_command(install_path),
        ],
    )
}

/// The commands that write a compose file and a record and start the services.
pub open spec fn rewrite_commands(
    install_path: Seq<char>,
    compose: Seq<char>,
    record: Seq<char>,
) -> Result<Seq<Seq<char>>, ErrorView> {
    all_built(
        seq![
            write_file_command(compose_path_of(install_path), encode_utf8(compose)),
            write_file_command(state_path_of(install_path), encode_utf8(record)),
            compose_up_command(install_path),
        ],
    )
}

/// Goes on from a step of the check.
pub open spec fn update_checked(m: UpdateView, check: (CheckView, CheckStep)) -> (
    UpdateView,
    UpdateStep,
) {
    let now = Update { check: check.0, ..m };
    match check.1 {
        Step::Next(action) => update_at(now, UpdatePhase::Check, Step::Next(action)),
        Step::Failed(e) => update_at(now, UpdatePhase::Over, Step::Failed(e)),
        Step::Done(report) => if any_newer(report.images) {
            update_at(
                Update { images: report.images, ..now },
                UpdatePhase::Clock,
                Step::Next(Action::ReadClock),
            )
        } else {
            update_current(now, load_begin(m.opts.install_path))
        },
    }
}

/// Goes on from a step of the reading of the record, where nothing is newer.
pub open spec fn update_current(m: UpdateView, load: (LoadView, LoadStep)) -> (
    UpdateView,
    UpdateStep,
) {
    let now = Update { load: load.0, ..m };
    match load.1 {
        Step::Next(action) => update_at(now, UpdatePhase::Current, Step::Next(action)),
        Step::Failed(e) => update_at(now, UpdatePhase::Over, Step::Failed(e)),
        Step::Done(state) => update_at(
            now,
            UpdatePhase::Over,
            Step::Done(
                UpdateReport {
                    install_path: m.opts.install_path,
                    changed: false,
                    new_state: state,
                    backup_dir: None,
                    rolled_back: false,
                    gc_deleted: seq![],
                },
            ),
        ),
    }
}

/// Goes on from a step of the reading of the record that is to be replaced.
pub open spec fn update_loaded(m: UpdateView, load: (LoadView, LoadStep)) -> (
    UpdateView,
    UpdateStep,
) {
    let now = Update { load: load.0, ..m };
    match load.1 {
        Step::Next(action) => update_at(now, UpdatePhase::Load, Step::Next(action)),
        Step::Failed(e) => update_at(now, UpdatePhase::Over, Step::Failed(e)),
        Step::Done(state) => {
            let pins = new_pins(m.images, m.now->0);
            let next = Update {
                old_state: Some(state),
                new_state: Some(updated_state(state, pins, m.now->0)),
                ..now
            };
            match repinned(m.opts.compose_template, pins) {
                Err(e) => update_at(next, UpdatePhase::Over, Step::Failed(e)),
                Ok(compose) => update_run(
                    next,
                    UpdatePhase::Write,
                    compose_commands(m.opts.install_path, compose),
                ),
            }
        },
    }
}

/// Makes the backup, unless it is to be skipped.
pub open spec fn update_clock(m: UpdateView, at: Timestamp) -> (UpdateView, UpdateStep) {
    let now = Update { now: Some(at), ..m };
    if m.opts.skip_backup {
        update_loaded(now, load_begin(m.opts.install_path))
    } else {
        let dir = backup_dir_of(m.opts.install_path, at.spec_stamp());
        update_run(
            Update { backup_dir: Some(dir), ..now },
            UpdatePhase::Backup,
            backup_commands(m.opts.install_path, dir),
        )
    }
}

/// Goes back to the old services: from the backup, or from the old record where there is none.
pub open spec fn update_rollback(m: UpdateView) -> (UpdateView, UpdateStep) {
    match m.backup_dir {
        Some(dir) => update_run(
            m,
            UpdatePhase::Rollback,
            restore_commands(m.opts.install_path, dir),
        ),
        None => update_at(
            m,
            UpdatePhase::Recover,
            Step::Next(Action::EncodeState(m.old_state->0)),
        ),
    }
}

/// Goes back to the old services without a backup: their compose file is made again.
pub open spec fn update_recover(m: UpdateView, record: Seq<char>) -> (UpdateView, UpdateStep) {
    match repinned(m.opts.compose_template, m.old_state->0.images) {
        Err(_) => update_at(
            m,
            UpdatePhase::Over,
            Step::Failed(RustmoteError::RelayHealthCheckFailed),
        ),
        Ok(compose) => update_run(
            m,
            UpdatePhase::Rollback,
            rewrite_commands(m.opts.install_path, compose, record),
        ),
    }
}

/// Removes the next old backup, or reports where there is none left.
pub open spec fn update_remove(m: UpdateView) -> (UpdateView, UpdateStep) {
    if m.removed < m.expired.len() {
        update_at(
            m,
            UpdatePhase::Remove,
            issue(remove_tree_command(m.expired[m.removed as int])),
        )
    } else {
        update_at(
            m,
            UpdatePhase::Over,
            Step::Done(
                UpdateReport {
                    install_path: m.opts.install_path,
                    changed: true,
                    new_state: m.new_state->0,
                    backup_dir: m.backup_dir,
                    rolled_back: false,
                    gc_deleted: m.expired,
                },
            ),
        )
    }
}

/// What follows the commands of a phase.
pub open spec fn update_ran(m: UpdateView) -> (UpdateView, UpdateStep) {
    match m.phase {
        UpdatePhase::Backup => update_at(
            m,
            UpdatePhase::Config,
            issue(compose_config_command(m.opts.install_path)),
        ),
        UpdatePhase::Snapshot => update_loaded(m, load_begin(m.opts.install_path)),
        UpdatePhase::Write => update_at(
            m,
            UpdatePhase::Encode,
            Step::Next(Action::EncodeState(m.new_state->0)),
        ),
        UpdatePhase::Start => update_at(m, UpdatePhase::Health, Step::Next(Action::ReadTimer)),
        _ => update_at(
            Update { health: HealthCheck { phase: HealthPhase::Begin, ..m.health }, ..m },
            UpdatePhase::RollbackHealth,
            Step::Next(Action::ReadTimer),
        ),
    }
}

/// What a command's output leads to.
pub open spec fn update_output(m: UpdateView, out: ExecOutputView) -> (UpdateView, UpdateStep) {
    let ok = out.exit_code == 0;
    match m.phase {
        UpdatePhase::Config => if ok {
            update_run(
                m,
                UpdatePhase::Snapshot,
                snapshot_commands(m.backup_dir->0, out.stdout),
            )
        } else {
            update_loaded(m, load_begin(m.opts.install_path))
        },
        UpdatePhase::List => update_remove(
            Update {
                expired: if ok {
                    expired_in(utf8_lossy(out.stdout), m.now->0.spec_secs())
                } else {
                    seq![]
                },
                removed: 0,
                ..m
            },
        ),
        UpdatePhase::Remove => match remove_tree_command(m.expired[m.removed as int]) {
            Err(e) => update_at(m, UpdatePhase::Over, Step::Failed(e)),
            Ok(command) => if ok {
                update_remove(Update { removed: m.removed + 1, ..m })
            } else {
                update_at(m, UpdatePhase::Over, Step::Failed(command_failed(command, out)))
            },
        },
        _ => {
            let rest = Update { queue: m.queue.skip(1), ..m };
            match queue_step(m.queue, out) {
                Step::Failed(e) => update_at(rest, UpdatePhase::Over, Step::Failed(e)),
                Step::Next(action) => update_at(rest, m.phase, Step::Next(action)),
                Step::Done(()) => update_ran(rest),
            }
        },
    }
}

/// One step of an update.
pub open spec fn update_step(m: UpdateView, reply: ReplyView) -> (UpdateView, UpdateStep) {
    match m.phase {
        UpdatePhase::Check => update_checked(m, check_step(m.check, reply)),
        UpdatePhase::Current => update_current(m, load_step(m.load, reply)),
        UpdatePhase::Load => update_loaded(m, load_step(m.load, reply)),
        UpdatePhase::Health => {
            let (health, step) = health_step(m.health, reply);
            let now = Update { health, ..m };
            match step {
                Step::Next(action) => update_at(now, UpdatePhase::Health, Step::Next(action)),
                Step::Failed(_) => update_rollback(now),
                Step::Done(()) => update_at(
                    now,
                    UpdatePhase::List,
                    issue(list_backups_command(backups_path_of(m.opts.install_path))),
                ),
            }
        },
        UpdatePhase::RollbackHealth => {
            let (health, step) = health_step(m.health, reply);
            let now = Update { health, ..m };
            match step {
                Step::Next(action) => update_at(
                    now,
                    UpdatePhase::RollbackHealth,
                    Step::Next(action),
                ),
                Step::Failed(e) => update_at(now, UpdatePhase::Over, Step::Failed(e)),
                Step::Done(()) => update_at(
                    now,
                    UpdatePhase::Over,
                    Step::Failed(RustmoteError::RelayHealthCheckFailed),
                ),
            }
        },
        _ => match reply {
            Reply::Failed(e) => update_at(m, UpdatePhase::Over, Step::Failed(e)),
            Reply::Output(out) => update_output(m, out),
            Reply::Clock(at) => update_clock(m, at),
            Reply::Encoded(text) => if m.phase == UpdatePhase::Recover {
                update_recover(m, text)
            } else {
                update_run(
                    m,
                    UpdatePhase::Start,
                    switch_commands(m.opts.install_path, text),
                )
            },
            _ => arbitrary(),
        },
    }
}

/// The first step: an update that nobody confirmed and nobody can confirm is refused; else look
/// for newer images.
pub open spec fn update_begin(opts: UpdateOptionsView, health: HealthCheck) -> (
    UpdateView,
    UpdateStep,
) {
    let (check, step) = check_begin(opts.install_path);
    let m = Update {
        opts,
        health,
        phase: UpdatePhase::Over,
        check,
        load: StateLoad { install_path: opts.install_path, phase: LoadPhase::Over },
        images: seq![],
        now: None,
        backup_dir: None,
        old_state: None,
        new_state: None,
        queue: seq![],
        expired: seq![],
        removed: 0,
    };
    if !opts.assume_yes && !opts.is_tty {
        update_at(m, UpdatePhase::Over, Step::Failed(RustmoteError::RelayUpdateNotConfirmed))
    } else {
        update_checked(m, (check, step))
    }
}

type ExecStep = Step<Action, UpdateReport, RustmoteError>;

impl Update {
    /// What is known in which phase.
    pub open spec fn wf(self) -> bool {
        self.queue.wf() && update_ok(self@)
    }

    fn settle(&mut self, phase: UpdatePhase, step: ExecStep) -> (r: ExecStep)
        ensures
            r == step,
            *final(self) == (Update {
                phase: if step is Next {
                    phase
                } else {
                    UpdatePhase::Over
                },
                ..*old(self)
            }),
    {
        self.phase = if matches!(step, Step::Next(_)) {
            phase
        } else {
            UpdatePhase::Over
        };
        step
    }

    fn fail(&mut self, e: RustmoteError) -> (r: ExecStep)
        ensures
            r == ExecStep::Failed(e),
            *final(self) == (Update { phase: UpdatePhase::Over, ..*old(self) }),
    {
        self.settle(UpdatePhase::Over, Step::Failed(e))
    }

    fn run(&mut self, phase: UpdatePhase, commands: Vec<Result<String, RustmoteError>>) -> (r:
        ExecStep)
        requires
            commands@.len() > 0,
            old(self).queue.wf(),
            old(self).now is Some,
            match phase {
                UpdatePhase::Backup | UpdatePhase::Snapshot => old(self).backup_dir is Some
                    && old(self).health.phase == HealthPhase::Begin,
                UpdatePhase::Write | UpdatePhase::Start => old(self).new_state is Some && old(
                    self,
                ).old_state is Some && old(self).health.phase == HealthPhase::Begin,
                UpdatePhase::Rollback => old(self).new_state is Some && old(self).old_state is Some,
                _ => false,
            },
        ensures
            (final(self)@, r@) == update_run(old(self)@, phase, all_built(outcomes(commands@))),
            final(self).wf(),
            awaits(r@, update_wait(final(self)@)),
    {
        proof {
            lemma_all_built_len(outcomes(commands@));
        }
        match CommandQueue::build(commands) {
            Err(e) => self.fail(e),
            Ok(queue) => {
                let command = queue.running();
                self.queue = queue;
                self.settle(phase, Step::Next(Action::Exec(command)))
            },
        }
    }

    fn checked(&mut self, step: Step<Action, CheckUpdatesReport, RustmoteError>) -> (r: ExecStep)
        requires
            old(self).queue.wf(),
            old(self).health.phase == HealthPhase::Begin,
            check_ok(old(self)@.check),
            awaits(step@, check_wait(old(self)@.check)),
        ensures
            (final(self)@, r@) == update_checked(old(self)@, (old(self)@.check, step@)),
            final(self).wf(),
            awaits(r@, update_wait(final(self)@)),
    {
        match step {
            Step::Next(action) => self.settle(UpdatePhase::Check, Step::Next(action)),
            Step::Failed(e) => self.fail(e),
            Step::Done(report) => if report.any_update_available() {
                self.images = report.images;
                self.settle(UpdatePhase::Clock, Step::Next(Action::ReadClock))
            } else {
                let (load, step) = StateLoad::begin(self.opts.install_path.as_str());
                self.load = load;
                self.current(step)
            },
        }
    }

    fn current(&mut self, step: Step<Action, RelayState, RustmoteError>) -> (r: ExecStep)
        requires
            old(self).queue.wf(),
            old(self).health.phase == HealthPhase::Begin,
            awaits(step@, load_wait(old(self)@.load)),
        ensures
            (final(self)@, r@) == update_current(old(self)@, (old(self)@.load, step@)),
            final(self).wf(),
            awaits(r@, update_wait(final(self)@)),
    {
        match step {
            Step::Next(action) => self.settle(UpdatePhase::Current, Step::Next(action)),
            Step::Failed(e) => self.fail(e),
            Step::Done(state) => {
                let report = UpdateReport {
                    install_path: self.opts.install_path.clone(),
                    changed: false,
                    new_state: state,
                    backup_dir: None,
                    rolled_back: false,
                    gc_deleted: Vec::new(),
                };
                assert(report@.gc_deleted =~= Seq::empty());
                self.settle(UpdatePhase::Over, Step::Done(report))
            },
        }
    }

    fn pins(&self, at: Timestamp) -> (r: Vec<ImagePin>)
        ensures
            views(r@) == new_pins(self@.images, at),
    {
        let mut out: Vec<ImagePin> = Vec::new();
        let mut i: usize = 0;
        assert(views(out@) =~= new_pins(self@.images, at).take(0));
        while i < self.images.len()
            invariant
                i <= self.images@.len(),
                views(out@) == new_pins(self@.images, at).take(i as int),
            decreases self.images@.len() - i,
        {
            let u = self.images[i].clone();
            let pin = ImagePin {
                service: u.service,
                repo: u.repo,
                tag: u.latest_tag,
                digest: u.latest_digest,
                pinned_at: at,
            };
            proof {
                lemma_views_push(out@, pin);
                assert(self@.images[i as int] == self.images@[i as int]@);
                assert(new_pins(self@.images, at).take(i + 1) =~= new_pins(self@.images, at).take(
                    i as int,
                ).push(pin@));
            }
            out.push(pin);
            i += 1;
        }
        assert(new_pins(self@.images, at).take(i as int) =~= new_pins(self@.images, at));
        out
    }

    fn loaded(&mut self, step: Step<Action, RelayState, RustmoteError>) -> (r: ExecStep)
        requires
            old(self).queue.wf(),
            old(self).now is Some,
            old(self).health.phase == HealthPhase::Begin,
            awaits(step@, load_wait(old(self)@.load)),
        ensures
            (final(self)@, r@) == update_loaded(old(self)@, (old(self)@.load, step@)),
            final(self).wf(),
            awaits(r@, update_wait(final(self)@)),
    {
        match step {
            Step::Next(action) => self.settle(UpdatePhase::Load, Step::Next(action)),
            Step::Failed(e) => self.fail(e),
            Step::Done(state) => {
                let now = self.now.unwrap();
                let pins = self.pins(now);
                let compose = repin_compose(self.opts.compose_template.as_str(), &pins);
                let mut new_state = state.clone();
                new_state.apply_update(pins, now);
                self.old_state = Some(state);
                self.new_state = Some(new_state);
                match compose {
                    Err(e) => self.fail(e),
                    Ok(text) => {
                        let path = compose_path(self.opts.install_path.as_str());
                        let mut commands: Vec<Result<String, RustmoteError>> = Vec::new();
                        commands.push(write_file(path.as_str(), text.as_str().as_bytes()));
                        assert(outcomes(commands@) =~= seq![
                            write_file_command(path@, encode_utf8(text@)),
                        ]);
                        self.run(UpdatePhase::Write, commands)
                    },
                }
            },
        }
    }

    fn load_old(&mut self) -> (r: ExecStep)
        requires
            old(self).queue.wf(),
            old(self).now is Some,
            old(self).health.phase == HealthPhase::Begin,
        ensures
            (final(self)@, r@) == update_loaded(
                old(self)@,
                load_begin(old(self)@.opts.install_path),
            ),
            final(self).wf(),
            awaits(r@, update_wait(final(self)@)),
    {
        let (load, step) = StateLoad::begin(self.opts.install_path.as_str());
        self.load = load;
        self.loaded(step)
    }

    fn clock(&mut self, at: Timestamp) -> (r: ExecStep)
        requires
            old(self).queue.wf(),
            old(self).health.phase == HealthPhase::Begin,
        ensures
            (final(self)@, r@) == update_clock(old(self)@, at),
            final(self).wf(),
            awaits(r@, update_wait(final(self)@)),
    {
        self.now = Some(at);
        if self.opts.skip_backup {
            return self.load_old();
        }
        let install = self.opts.install_path.as_str();
        let dir = backup_dir_for(install, at);
        let mut commands: Vec<Result<String, RustmoteError>> = Vec::new();
        commands.push(mkdir_p(dir.as_str()));
        commands.push(
            copy_file(
                compose_path(install).as_str(),
                join_path(dir.as_str(), "docker-compose.yml").as_str(),
            ),
        );
        commands.push(
            copy_file(
                state_path(install).as_str(),
                join_path(dir.as_str(), ".rustmote-state.toml").as_str(),
            ),
        );
        assert(outcomes(commands@) =~= seq![
            mkdir_p_command(dir@),
            copy_file_command(
                compose_path_of(self.opts@.install_path),
                path_join(dir@, "docker-compose.yml"@),
            ),
            copy_file_command(
                state_path_of(self.opts@.install_path),
                path_join(dir@, ".rustmote-state.toml"@),
            ),
        ]);
        self.backup_dir = Some(dir);
        self.run(UpdatePhase::Backup, commands)
    }

    fn rollback(&mut self) -> (r: ExecStep)
        requires
            old(self).queue.wf(),
            old(self).now is Some,
            old(self).old_state is Some,
            old(self).new_state is Some,
        ensures
            (final(self)@, r@) == update_rollback(old(self)@),
            final(self).wf(),
            awaits(r@, update_wait(final(self)@)),
    {
        let install = self.opts.install_path.as_str();
        match &self.backup_dir {
            Some(dir) => {
                let mut commands: Vec<Result<String, RustmoteError>> = Vec::new();
                commands.push(
                    copy_file(
                        join_path(dir.as_str(), "docker-compose.yml").as_str(),
                        compose_path(install).as_str(),
                    ),
                );
                commands.push(
                    copy_file(
                        join_path(dir.as_str(), ".rustmote-state.toml").as_str(),
                        state_path(install).as_str(),
                    ),
                );
                commands.push(compose_up(install));
                assert(outcomes(commands@) =~= seq![
                    copy_file_command(
                        path_join(dir@, "docker-compose.yml"@),
                        compose_path_of(self.opts@.install_path),
                    ),
                    copy_file_command(
                        path_join(dir@, ".rustmote-state.toml"@),
                        state_path_of(self.opts@.install_path),
                    ),
                    compose_up_command(self.opts@.install_path),
                ]);
                self.run(UpdatePhase::Rollback, commands)
            },
            None => {
                let action = Action::EncodeState(self.old_state.as_ref().unwrap().clone());
                self.settle(UpdatePhase::Recover, Step::Next(action))
            },
        }
    }

    fn recover(&mut self, record: &str) -> (r: ExecStep)
        requires
            old(self).queue.wf(),
            old(self).now is Some,
            old(self).old_state is Some,
            old(self).new_state is Some,
        ensures
            (final(self)@, r@) == update_recover(old(self)@, record@),
            final(self).wf(),
            awaits(r@, update_wait(final(self)@)),
    {
        let old_state = self.old_state.as_ref().unwrap();
        match repin_compose(self.opts.compose_template.as_str(), &old_state.images) {
            Err(_) => self.fail(RustmoteError::RelayHealthCheckFailed),
            Ok(text) => {
                let install = self.opts.install_path.as_str();
                let mut commands: Vec<Result<String, RustmoteError>> = Vec::new();
                commands.push(write_file(compose_path(install).as_str(), text.as_str().as_bytes()));
                commands.push(write_file(state_path(install).as_str(), record.as_bytes()));
                commands.push(compose_up(install));
                assert(outcomes(commands@) =~= seq![
                    write_file_command(
                        compose_path_of(self.opts@.install_path),
                        encode_utf8(text@),
                    ),
                    write_file_command(
                        state_path_of(self.opts@.install_path),
                        encode_utf8(record@),
                    ),
                    compose_up_command(self.opts@.install_path),
                ]);
                self.run(UpdatePhase::Rollback, commands)
            },
        }
    }

    fn remove_next(&mut self) -> (r: ExecStep)
        requires
            old(self).queue.wf(),
            old(self).now is Some,
            old(self).old_state is Some,
            old(self).new_state is Some,
        ensures
            (final(self)@, r@) == update_remove(old(self)@),
            final(self).wf(),
            awaits(r@, update_wait(final(self)@)),
    {
        if self.removed < self.expired.len() {
            let step = issue_command(remove_tree(self.expired[self.removed].as_str()));
            self.settle(UpdatePhase::Remove, step)
        } else {
            let report = UpdateReport {
                install_path: self.opts.install_path.clone(),
                changed: true,
                new_state: self.new_state.as_ref().unwrap().clone(),
                backup_dir: opt_clone(&self.backup_dir),
                rolled_back: false,
                gc_deleted: clone_all(&self.expired),
            };
            self.settle(UpdatePhase::Over, Step::Done(report))
        }
    }

    fn ran(&mut self) -> (r: ExecStep)
        requires
            old(self).queue.wf(),
            update_ok(Update { queue: seq![seq![]], ..old(self)@ }),
            match old(self).phase {
                UpdatePhase::Backup
                | UpdatePhase::Snapshot
                | UpdatePhase::Write
                | UpdatePhase::Start
                | UpdatePhase::Rollback => true,
                _ => false,
            },
        ensures
            (final(self)@, r@) == update_ran(old(self)@),
            final(self).wf(),
            awaits(r@, update_wait(final(self)@)),
    {
        match self.phase {
            UpdatePhase::Backup => {
                let step = issue_command(compose_config(self.opts.install_path.as_str()));
                self.settle(UpdatePhase::Config, step)
            },
            UpdatePhase::Snapshot => self.load_old(),
            UpdatePhase::Write => {
                let action = Action::EncodeState(self.new_state.as_ref().unwrap().clone());
                self.settle(UpdatePhase::Encode, Step::Next(action))
            },
            UpdatePhase::Start => self.settle(UpdatePhase::Health, Step::Next(Action::ReadTimer)),
            _ => {
                self.health.phase = HealthPhase::Begin;
                self.settle(UpdatePhase::RollbackHealth, Step::Next(Action::ReadTimer))
            },
        }
    }

    fn output(&mut self, out: ExecOutput) -> (r: ExecStep)
        requires
            old(self).wf(),
            match old(self).phase {
                UpdatePhase::Backup
                | UpdatePhase::Config
                | UpdatePhase::Snapshot
                | UpdatePhase::Write
                | UpdatePhase::Start
                | UpdatePhase::Rollback
                | UpdatePhase::List
                | UpdatePhase::Remove => true,
                _ => false,
            },
        ensures
            (final(self)@, r@) == update_output(old(self)@, out@),
            final(self).wf(),
            awaits(r@, update_wait(final(self)@)),
    {
        match self.phase {
            UpdatePhase::Config => if out.exit_code == 0 {
                let path = join_path(
                    self.backup_dir.as_ref().unwrap().as_str(),
                    "compose-config.yml",
                );
                let mut commands: Vec<Result<String, RustmoteError>> = Vec::new();
                commands.push(write_file(path.as_str(), out.stdout.as_slice()));
                assert(outcomes(commands@) =~= seq![write_file_command(path@, out@.stdout)]);
                self.run(UpdatePhase::Snapshot, commands)
            } else {
                self.load_old()
            },
            UpdatePhase::List => {
                self.expired = if out.exit_code == 0 {
                    expired_backups(out.stdout_string().as_str(), self.now.unwrap())
                } else {
                    Vec::new()
                };
                assert(out.exit_code != 0 ==> views(self.expired@) =~= Seq::empty());
                self.removed = 0;
                self.remove_next()
            },
            UpdatePhase::Remove => match remove_tree(self.expired[self.removed].as_str()) {
                Err(e) => self.fail(e),
                Ok(command) => match out.ok_for(command.as_str()) {
                    Err(e) => self.fail(e),
                    Ok(_) => {
                        let count: usize = self.expired.len();
                        assert(self.removed < count);
                        self.removed = self.removed + 1;
                        self.remove_next()
                    },
                },
            },
            _ => {
                let phase = self.phase;
                match self.queue.advance(out) {
                    Step::Failed(e) => self.fail(e),
                    Step::Next(action) => self.settle(phase, Step::Next(action)),
                    Step::Done(_) => self.ran(),
                }
            },
        }
    }

    /// Begins to update a relay.
    pub fn begin(opts: UpdateOptions, timeout: TimeSpan, interval: TimeSpan) -> (r: (
        Update,
        ExecStep,
    ))
        ensures
            (r.0@, r.1@) == update_begin(
                opts@,
                (HealthCheck { timeout, interval, deadline: 0, phase: HealthPhase::Begin }),
            ),
            r.0.wf(),
            awaits(r.1@, update_wait(r.0@)),
    {
        let (check, step) = UpdateCheck::begin(opts.install_path.as_str());
        let load = StateLoad { install_path: opts.install_path.clone(), phase: LoadPhase::Over };
        let confirmed = opts.assume_yes || opts.is_tty;
        let mut m = Update {
            opts,
            health: HealthCheck::new(timeout, interval),
            phase: UpdatePhase::Over,
            check,
            load,
            images: Vec::new(),
            now: None,
            backup_dir: None,
            old_state: None,
            new_state: None,
            queue: CommandQueue::empty(),
            expired: Vec::new(),
            removed: 0,
        };
        assert(m@.images =~= Seq::empty());
        assert(m@.expired =~= Seq::empty());
        let step = if confirmed {
            m.checked(step)
        } else {
            m.fail(RustmoteError::RelayUpdateNotConfirmed)
        };
        (m, step)
    }

    /// Takes a reply in.
    pub fn step(&mut self, reply: Reply) -> (r: ExecStep)
        requires
            old(self).wf(),
            fits(update_wait(old(self)@), reply@),
        ensures
            (final(self)@, r@) == update_step(old(self)@, reply@),
            final(self).wf(),
            awaits(r@, update_wait(final(self)@)),
    {
        match self.phase {
            UpdatePhase::Check => {
                let step = self.check.step(reply);
                self.checked(step)
            },
            UpdatePhase::Current => {
                let step = self.load.step(reply);
                self.current(step)
            },
            UpdatePhase::Load => {
                let step = self.load.step(reply);
                self.loaded(step)
            },
            UpdatePhase::Health => match self.health.step(reply) {
                Step::Next(action) => Step::Next(action),
                Step::Failed(_) => self.rollback(),
                Step::Done(_) => {
                    let step = issue_command(
                        list_backups(backups_path(self.opts.install_path.as_str()).as_str()),
                    );
                    self.settle(UpdatePhase::List, step)
                },
            },
            UpdatePhase::RollbackHealth => match self.health.step(reply) {
                Step::Next(action) => Step::Next(action),
                Step::Failed(e) => self.fail(e),
                Step::Done(_) => self.fail(RustmoteError::RelayHealthCheckFailed),
            },
            _ => match reply {
                Reply::Failed(e) => self.fail(e),
                Reply::Output(out) => self.output(out),
                Reply::Clock(at) => self.clock(at),
                Reply::Encoded(text) => if matches!(self.phase, UpdatePhase::Recover) {
                    self.recover(text.as_str())
                } else {
                    let install = self.opts.install_path.as_str();
                    let mut commands: Vec<Result<String, RustmoteError>> = Vec::new();
                    commands.push(
                        write_file(state_path(install).as_str(), text.as_str().as_bytes()),
                    );
                    commands.push(compose_pull(install));
                    commands.push(compose_up(install));
                    assert(outcomes(commands@) =~= seq![
                        write_file_command(
                            state_path_of(self.opts@.install_path),
                            encode_utf8(text@),
                        ),
                        compose_pull_command(self.opts@.install_path),
                        compose_up_command(self.opts@.install_path),
                    ]);
                    self.run(UpdatePhase::Start, commands)
                },
                _ => {
                    // No other reply fits.
                    assert(false);
                    Step::Failed(RustmoteError::RelayHealthCheckFailed)
                },
            },
        }
    }
}

} // verus!
