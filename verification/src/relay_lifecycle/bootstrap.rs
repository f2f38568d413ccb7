//! Installing a relay.
use crate::error::{ErrorView, RustmoteError};
use crate::relay_lifecycle::commands::{
    cat_file, cat_file_command, check_docker_compose_v1, check_docker_compose_v2,
    check_docker_present, compose_up, compose_up_command, mkdir_p, mkdir_p_command, read_os_release,
    test_dir_exists, test_dir_exists_command, test_file_exists, test_file_exists_command,
    write_file, write_file_command,
};
use crate::relay_lifecycle::compose::{render_compose_with_pins, rendered};
use crate::relay_lifecycle::health::{health_step, health_wait, HealthCheck, HealthPhase};
use crate::relay_lifecycle::os_release::{os_in, parse_os_release, OsKind};
use crate::relay_lifecycle::paths::{
    backups_path, backups_path_of, compose_path, compose_path_of, data_path, data_path_of, env_path,
    env_path_of, key_path, key_path_of, state_path, state_path_of,
};
use crate::relay_lifecycle::state::{fresh_state, ImagePin, PinView, RelayState, StateView};
use crate::relay_lifecycle::step::{
    all_built, awaits, fits, issue, issue_command, lemma_all_built_len, outcomes, queue_step,
    Action, ActionView, CommandQueue, Reply, ReplyView, Step, Wait,
};
use crate::session::{command_failed, ExecOutput, ExecOutputView};
use crate::text::{lemma_views_push, opt_view, text_trim, trim, utf8_lossy, views};
use crate::time::{TimeSpan, Timestamp};
use vstd::prelude::*;
use vstd::utf8::encode_utf8;

verus! {

/// Where a relay is installed unless the caller says otherwise.
pub const DEFAULT_INSTALL_PATH: &'static str = "/opt/rustmote-relay";

/// The repository of the relay's images.
pub const DEFAULT_REPO: &'static str = "rustdesk/rustdesk-server";

/// The tag that the compose template names.
pub const DEFAULT_TAG: &'static str = "1.1.11";

/// What is to be installed, and where.
#[derive(Debug, PartialEq, Eq)]
pub struct BootstrapOptions<T = String, L = Vec<String>> {
    pub install_path: T,
    pub compose_template: T,
    pub env_contents: T,
    pub repo: T,
    pub tag: T,
    pub services: L,
    pub rustmote_version: T,
    /// The remote's system, where it is not to be detected.
    pub os_hint: Option<OsKind>,
}

/// The view of a [`BootstrapOptions`].
pub type BootstrapOptionsView = BootstrapOptions<Seq<char>, Seq<Seq<char>>>;

impl View for BootstrapOptions {
    type V = BootstrapOptionsView;

    open spec fn view(&self) -> BootstrapOptionsView {
        BootstrapOptions {
            install_path: self.install_path@,
            compose_template: self.compose_template@,
            env_contents: self.env_contents@,
            repo: self.repo@,
            tag: self.tag@,
            services: views(self.services@),
            rustmote_version: self.rustmote_version@,
            os_hint: self.os_hint,
        }
    }
}

impl BootstrapOptions {
    /// The default path, images and services, with the system detected.
    pub fn new(compose_template: String, env_contents: String, rustmote_version: String) -> (r:
        BootstrapOptions)
        ensures
            r@ == (BootstrapOptions {
                install_path: DEFAULT_INSTALL_PATH@,
                compose_template: compose_template@,
                env_contents: env_contents@,
                repo: DEFAULT_REPO@,
                tag: DEFAULT_TAG@,
                services: seq!["hbbs"@, "hbbr"@],
                rustmote_version: rustmote_version@,
                os_hint: None,
            }),
    {
        let mut services: Vec<String> = Vec::new();
        services.push("hbbs".to_owned());
        services.push("hbbr".to_owned());
        assert(views(services@) =~= seq!["hbbs"@, "hbbr"@]);
        BootstrapOptions {
            install_path: DEFAULT_INSTALL_PATH.to_owned(),
            compose_template,
            env_contents,
            repo: DEFAULT_REPO.to_owned(),
            tag: DEFAULT_TAG.to_owned(),
            services,
            rustmote_version,
            os_hint: None,
        }
    }
}

/// What an installation came to.
#[derive(Debug, PartialEq, Eq)]
pub struct BootstrapReport<T = String, S = RelayState> {
    pub install_path: T,
    pub state: S,
    pub relay_public_key: Option<T>,
    /// Whether the relay was there already, and nothing was done.
    pub already_installed: bool,
    pub detected_os: OsKind,
}

/// The view of a [`BootstrapReport`].
pub type BootstrapReportView = BootstrapReport<Seq<char>, StateView>;

impl View for BootstrapReport {
    type V = BootstrapReportView;

    open spec fn view(&self) -> BootstrapReportView {
        BootstrapReport {
            install_path: self.install_path@,
            state: self.state@,
            relay_public_key: opt_view(self.relay_public_key),
            already_installed: self.already_installed,
            detected_os: self.detected_os,
        }
    }
}

/// What an installation waits for.
#[derive(Debug, Clone, Copy, PartialEq, Eq, Structural)]
pub enum BootstrapPhase {
    /// What the remote's system is.
    Os,
    /// Whether the container engine is there.
    Docker,
    /// Whether the compose plugin is there.
    ComposeV2,
    /// Whether the old compose tool is there.
    ComposeV1,
    /// Whether the install path is taken.
    InstallDir,
    /// Whether what is there is a relay of ours.
    StateFile,
    /// The record of that relay, as text.
    StateText,
    /// The record of that relay.
    StateDecode,
    /// The public key of that relay.
    OldKey,
    /// The time of the installation.
    Clock,
    /// The digest of the next service's image.
    Digest,
    /// The commands that make the directories and write the compose file and the environment.
    Layout,
    /// The record of the new relay, as text.
    Encode,
    /// The commands that write the record and start the services.
    Start,
    /// The health check.
    Health,
    /// The public key of the new relay.
    NewKey,
    /// Nothing more.
    Over,
}

/// Installs a relay.
#[derive(Debug, PartialEq, Eq)]
pub struct Bootstrap<O = BootstrapOptions, P = Vec<ImagePin>, S = RelayState, Q = CommandQueue> {
    pub opts: O,
    pub health: HealthCheck,
    pub phase: BootstrapPhase,
    pub os: Option<OsKind>,
    pub now: Option<Timestamp>,
    /// The services whose digest is known.
    pub pins: P,
    pub state: Option<S>,
    pub queue: Q,
}

/// The view of a [`Bootstrap`].
pub type BootstrapView = Bootstrap<
    BootstrapOptionsView,
    Seq<PinView>,
    StateView,
    Seq<Seq<char>>,
>;

/// A step of an installation.
pub type BootstrapStep = Step<ActionView, BootstrapReportView, ErrorView>;

impl View for Bootstrap {
    type V = BootstrapView;

    open spec fn view(&self) -> BootstrapView {
        Bootstrap {
            opts: self.opts@,
            health: self.health,
            phase: self.phase,
            os: self.os,
            now: self.now,
            pins: views(self.pins@),
            state: match self.state {
                Some(s) => Some(s@),
                None => None,
            },
            queue: self.queue@,
        }
    }
}

/// What the installation waits for.
pub open spec fn bootstrap_wait(m: BootstrapView) -> Wait {
    match m.phase {
        BootstrapPhase::StateDecode => Wait::State,
        BootstrapPhase::Clock => Wait::Clock,
        BootstrapPhase::Digest => Wait::Digest,
        BootstrapPhase::Encode => Wait::Encoded,
        BootstrapPhase::Health => health_wait(m.health),
        BootstrapPhase::Over => Wait::Nothing,
        _ => Wait::Output,
    }
}

/// What is known in which phase.
pub open spec fn bootstrap_ok(m: BootstrapView) -> bool {
    &&& m.phase != BootstrapPhase::Os && m.phase != BootstrapPhase::Over ==> m.os is Some
    &&& m.phase == BootstrapPhase::Digest ==> m.now is Some && m.pins.len() < m.opts.services.len()
    &&& match m.phase {
        BootstrapPhase::OldKey
        | BootstrapPhase::Layout
        | BootstrapPhase::Encode
        | BootstrapPhase::Start
        | BootstrapPhase::Health
        | BootstrapPhase::NewKey => m.state is Some,
        _ => true,
    }
    &&& m.phase == BootstrapPhase::Layout || m.phase == BootstrapPhase::Start ==> m.queue.len() > 0
    &&& match m.phase {
        BootstrapPhase::Health | BootstrapPhase::NewKey | BootstrapPhase::Over => true,
        _ => m.health.phase == HealthPhase::Begin,
    }
}

/// Goes to a phase where the step asks for something, and else to the end.
pub open spec fn bootstrap_at(m: BootstrapView, phase: BootstrapPhase, step: BootstrapStep) -> (
    BootstrapView,
    BootstrapStep,
) {
    (
        Bootstrap {
            phase: if step is Next {
                phase
            } else {
                BootstrapPhase::Over
            },
            ..m
        },
        step,
    )
}

/// The report at the end.
pub open spec fn bootstrap_report(m: BootstrapView, key: Option<Seq<char>>, existing: bool) -> (
    BootstrapView,
    BootstrapStep,
) {
    bootstrap_at(
        m,
        BootstrapPhase::Over,
        Step::Done(
            BootstrapReport {
                install_path: m.opts.install_path,
                state: m.state->0,
                relay_public_key: key,
                already_installed: existing,
                detected_os: m.os->0,
            },
        ),
    )
}

/// The public key that a read of its file gives, if it gives one.
pub open spec fn key_in(reply: ReplyView) -> Option<Seq<char>> {
    match reply {
        Reply::Output(out) => if out.exit_code == 0 {
            Some(trim(utf8_lossy(out.stdout)))
        } else {
            None
        },
        _ => None,
    }
}

/// The public key that a read of its file gives, if it gives one.
pub fn public_key_in(reply: &Reply) -> (r: Option<String>)
    ensures
        opt_view(r) == key_in(reply@),
{
    match reply {
        Reply::Output(out) => if out.exit_code == 0 {
            Some(text_trim(out.stdout_string().as_str()))
        } else {
            None
        },
        _ => None,
    }
}

/// Reads the public key. That it cannot be read is no failure.
pub open spec fn bootstrap_read_key(m: BootstrapView, phase: BootstrapPhase) -> (
    BootstrapView,
    BootstrapStep,
) {
    match cat_file_command(key_path_of(m.opts.install_path)) {
        Err(_) => bootstrap_report(m, None, phase == BootstrapPhase::OldKey),
        Ok(command) => bootstrap_at(m, phase, Step::Next(Action::Exec(command))),
    }
}

/// The commands that lay the files of a relay out, but for its record.
pub open spec fn layout_commands(
    opts: BootstrapOptionsView,
    compose: Seq<char>,
) -> Result<Seq<Seq<char>>, ErrorView> {
    all_built(
        seq![
            mkdir_p_command(opts.install_path),
            mkdir_p_command(data_path_of(opts.install_path)),
            mkdir_p_command(backups_path_of(opts.install_path)),
            write_file_command(compose_path_of(opts.install_path), encode_utf8(compose)),
            write_file_command(env_path_of(opts.install_path), encode_utf8(opts.env_contents)),
        ],
    )
}

/// The commands that write a record and start the services.
pub open spec fn start_commands(install_path: Seq<char>, record: Seq<char>) -> Result<
    Seq<Seq<char>>,
    ErrorView,
> {
    all_built(
        seq![
            write_file_command(state_path_of(install_path), encode_utf8(record)),
            compose_up_command(install_path),
        ],
    )
}

/// Starts to run commands.
pub open spec fn bootstrap_run(
    m: BootstrapView,
    phase: BootstrapPhase,
    commands: Result<Seq<Seq<char>>, ErrorView>,
) -> (BootstrapView, BootstrapStep) {
    match commands {
        Err(e) => bootstrap_at(m, phase, Step::Failed(e)),
        Ok(queue) => bootstrap_at(
            Bootstrap { queue, ..m },
            phase,
            Step::Next(Action::Exec(queue[0])),
        ),
    }
}

/// Resolves the next digest, or lays the files out once all are known.
pub open spec fn bootstrap_pins(m: BootstrapView) -> (BootstrapView, BootstrapStep) {
    if m.pins.len() < m.opts.services.len() {
        bootstrap_at(
            m,
            BootstrapPhase::Digest,
            Step::Next(Action::ResolveDigest { repo: m.opts.repo, tag: m.opts.tag }),
        )
    } else {
        match rendered(m.opts.compose_template, m.pins) {
            Err(e) => bootstrap_at(m, BootstrapPhase::Over, Step::Failed(e)),
            Ok(compose) => bootstrap_run(
                Bootstrap {
                    state: Some(fresh_state(m.now->0, m.opts.rustmote_version, m.pins)),
                    ..m
                },
                BootstrapPhase::Layout,
                layout_commands(m.opts, compose),
            ),
        }
    }
}

/// What a command's output leads to.
pub open spec fn bootstrap_output(m: BootstrapView, out: ExecOutputView) -> (
    BootstrapView,
    BootstrapStep,
) {
    let install_path = m.opts.install_path;
    let record = state_path_of(install_path);
    let ok = out.exit_code == 0;
    match m.phase {
        BootstrapPhase::Os => if !ok {
            bootstrap_at(
                m,
                BootstrapPhase::Over,
                Step::Failed(command_failed("cat /etc/os-release"@, out)),
            )
        } else {
            match os_in(utf8_lossy(out.stdout)) {
                None => bootstrap_at(
                    m,
                    BootstrapPhase::Over,
                    Step::Failed(
                        RustmoteError::RelayUnsupportedOs("no recognized ID in /etc/os-release"@),
                    ),
                ),
                Some(os) => bootstrap_at(
                    Bootstrap { os: Some(os), ..m },
                    BootstrapPhase::Docker,
                    Step::Next(Action::Exec("command -v docker"@)),
                ),
            }
        },
        BootstrapPhase::Docker => bootstrap_at(
            m,
            BootstrapPhase::ComposeV2,
            if ok {
                Step::Next(Action::Exec("docker compose version"@))
            } else {
                Step::Failed(RustmoteError::DockerEngineNotInstalled)
            },
        ),
        BootstrapPhase::ComposeV2 => if ok {
            bootstrap_at(
                m,
                BootstrapPhase::InstallDir,
                issue(test_dir_exists_command(install_path)),
            )
        } else {
            bootstrap_at(
                m,
                BootstrapPhase::ComposeV1,
                Step::Next(Action::Exec("docker-compose --version"@)),
            )
        },
        BootstrapPhase::ComposeV1 => bootstrap_at(
            m,
            BootstrapPhase::Over,
            Step::Failed(
                if ok {
                    RustmoteError::DockerComposeV1Detected
                } else {
                    RustmoteError::DockerEngineNotInstalled
                },
            ),
        ),
        BootstrapPhase::InstallDir => if ok {
            bootstrap_at(m, BootstrapPhase::StateFile, issue(test_file_exists_command(record)))
        } else {
            bootstrap_at(m, BootstrapPhase::Clock, Step::Next(Action::ReadClock))
        },
        BootstrapPhase::StateFile => bootstrap_at(
            m,
            BootstrapPhase::StateText,
            if ok {
                issue(cat_file_command(record))
            } else {
                Step::Failed(RustmoteError::RelayForeignInstall(install_path))
            },
        ),
        BootstrapPhase::StateText => bootstrap_at(
            m,
            BootstrapPhase::StateDecode,
            match cat_file_command(record) {
                Err(e) => Step::Failed(e),
                Ok(command) => if ok {
                    Step::Next(Action::DecodeState { text: utf8_lossy(out.stdout), path: record })
                } else {
                    Step::Failed(command_failed(command, out))
                },
            },
        ),
        _ => {
            let rest = Bootstrap { queue: m.queue.skip(1), ..m };
            match queue_step(m.queue, out) {
                Step::Failed(e) => bootstrap_at(rest, BootstrapPhase::Over, Step::Failed(e)),
                Step::Next(action) => bootstrap_at(rest, m.phase, Step::Next(action)),
                Step::Done(()) => if m.phase == BootstrapPhase::Layout {
                    bootstrap_at(
                        rest,
                        BootstrapPhase::Encode,
                        Step::Next(Action::EncodeState(m.state->0)),
                    )
                } else {
                    bootstrap_at(rest, BootstrapPhase::Health, Step::Next(Action::ReadTimer))
                },
            }
        },
    }
}

/// One step of an installation.
pub open spec fn bootstrap_step(m: BootstrapView, reply: ReplyView) -> (
    BootstrapView,
    BootstrapStep,
) {
    match m.phase {
        BootstrapPhase::OldKey => bootstrap_report(m, key_in(reply), true),
        BootstrapPhase::NewKey => bootstrap_report(m, key_in(reply), false),
        BootstrapPhase::Health => {
            let (health, step) = health_step(m.health, reply);
            let now = Bootstrap { health, ..m };
            match step {
                Step::Next(action) => bootstrap_at(
                    now,
                    BootstrapPhase::Health,
                    Step::Next(action),
                ),
                Step::Failed(e) => bootstrap_at(now, BootstrapPhase::Over, Step::Failed(e)),
                Step::Done(()) => bootstrap_read_key(now, BootstrapPhase::NewKey),
            }
        },
        _ => match reply {
            Reply::Failed(e) => bootstrap_at(m, BootstrapPhase::Over, Step::Failed(e)),
            Reply::Output(out) => bootstrap_output(m, out),
            Reply::State(state) => bootstrap_read_key(
                Bootstrap { state: Some(state), ..m },
                BootstrapPhase::OldKey,
            ),
            Reply::Clock(at) => bootstrap_pins(Bootstrap { now: Some(at), ..m }),
            Reply::Digest(digest) => bootstrap_pins(
                Bootstrap {
                    pins: m.pins.push(
                        ImagePin {
                            service: m.opts.services[m.pins.len() as int],
                            repo: m.opts.repo,
                            tag: m.opts.tag,
                            digest,
                            pinned_at: m.now->0,
                        },
                    ),
                    ..m
                },
            ),
            Reply::Encoded(text) => bootstrap_run(
                m,
                BootstrapPhase::Start,
                start_commands(m.opts.install_path, text),
            ),
            _ => arbitrary(),
        },
    }
}

/// The first step: detect the system, unless it is given.
pub open spec fn bootstrap_begin(opts: BootstrapOptionsView, health: HealthCheck) -> (
    BootstrapView,
    BootstrapStep,
) {
    let m = Bootstrap {
        opts,
        health,
        phase: BootstrapPhase::Over,
        os: opts.os_hint,
        now: None,
        pins: seq![],
        state: None,
        queue: seq![],
    };
    if opts.os_hint is Some {
        bootstrap_at(m, BootstrapPhase::Docker, Step::Next(Action::Exec("command -v docker"@)))
    } else {
        bootstrap_at(m, BootstrapPhase::Os, Step::Next(Action::Exec("cat /etc/os-release"@)))
    }
}

type ExecStep = Step<Action, BootstrapReport, RustmoteError>;

impl Bootstrap {
    /// What is known in which phase.
    pub open spec fn wf(self) -> bool {
        self.queue.wf() && bootstrap_ok(self@)
    }

    fn settle(&mut self, phase: BootstrapPhase, step: ExecStep) -> (r: ExecStep)
        ensures
            r == step,
            *final(self) == (Bootstrap {
                phase: if step is Next {
                    phase
                } else {
                    BootstrapPhase::Over
                },
                ..*old(self)
            }),
    {
        self.phase = if matches!(step, Step::Next(_)) {
            phase
        } else {
            BootstrapPhase::Over
        };
        step
    }

    fn fail(&mut self, e: RustmoteError) -> (r: ExecStep)
        ensures
            r == ExecStep::Failed(e),
            *final(self) == (Bootstrap { phase: BootstrapPhase::Over, ..*old(self) }),
    {
        self.settle(BootstrapPhase::Over, Step::Failed(e))
    }

    fn report(&mut self, key: Option<String>, existing: bool) -> (r: ExecStep)
        requires
            old(self).queue.wf(),
            old(self)@.state is Some,
            old(self)@.os is Some,
        ensures
            (final(self)@, r@) == bootstrap_report(old(self)@, opt_view(key), existing),
            final(self).wf(),
            awaits(r@, bootstrap_wait(final(self)@)),
    {
        let report = BootstrapReport {
            install_path: self.opts.install_path.clone(),
            state: self.state.as_ref().unwrap().clone(),
            relay_public_key: key,
            already_installed: existing,
            detected_os: self.os.unwrap(),
        };
        self.settle(BootstrapPhase::Over, Step::Done(report))
    }

    fn read_key(&mut self, phase: BootstrapPhase) -> (r: ExecStep)
        requires
            old(self).queue.wf(),
            old(self)@.state is Some,
            old(self)@.os is Some,
            phase == BootstrapPhase::NewKey || (phase == BootstrapPhase::OldKey
                && old(self).health.phase == HealthPhase::Begin),
        ensures
            (final(self)@, r@) == bootstrap_read_key(old(self)@, phase),
            final(self).wf(),
            awaits(r@, bootstrap_wait(final(self)@)),
    {
        let path = key_path(self.opts.install_path.as_str());
        match cat_file(path.as_str()) {
            Err(_) => self.report(None, matches!(phase, BootstrapPhase::OldKey)),
            Ok(command) => self.settle(phase, Step::Next(Action::Exec(command))),
        }
    }

    fn run(&mut self, phase: BootstrapPhase, commands: Vec<Result<String, RustmoteError>>) -> (r:
        ExecStep)
        requires
            commands@.len() > 0,
            old(self).queue.wf(),
            old(self)@.state is Some,
            old(self)@.os is Some,
            old(self).health.phase == HealthPhase::Begin,
            phase == BootstrapPhase::Layout || phase == BootstrapPhase::Start,
        ensures
            (final(self)@, r@) == bootstrap_run(
                old(self)@,
                phase,
                all_built(outcomes(commands@)),
            ),
            final(self).wf(),
            awaits(r@, bootstrap_wait(final(self)@)),
    {
        proof {
            lemma_all_built_len(outcomes(commands@));
        }
        match CommandQueue::build(commands) {
            Err(e) => self.fail(e),
            Ok(queue) => {
                let command = queue.running();
                self.queue = queue;
                self.settle(phase, Step::Next(Action::Exec(command)))
            },
        }
    }

    fn resolve_pins(&mut self) -> (r: ExecStep)
        requires
            old(self).queue.wf(),
            old(self)@.now is Some,
            old(self)@.os is Some,
            old(self).health.phase == HealthPhase::Begin,
        ensures
            (final(self)@, r@) == bootstrap_pins(old(self)@),
            final(self).wf(),
            awaits(r@, bootstrap_wait(final(self)@)),
    {
        if self.pins.len() < self.opts.services.len() {
            let action = Action::ResolveDigest {
                repo: self.opts.repo.clone(),
                tag: self.opts.tag.clone(),
            };
            return self.settle(BootstrapPhase::Digest, Step::Next(action));
        }
        let compose = match render_compose_with_pins(
            self.opts.compose_template.as_str(),
            &self.pins,
        ) {
            Err(e) => {
                return self.fail(e);
            },
            Ok(compose) => compose,
        };
        let now = self.now.unwrap();
        let pins = self.pins.clone();
        assert(pins@ =~= self.pins@);
        self.state = Some(
            RelayState::new_bootstrap(now, self.opts.rustmote_version.as_str(), pins),
        );
        let install = self.opts.install_path.as_str();
        let mut commands: Vec<Result<String, RustmoteError>> = Vec::new();
        commands.push(mkdir_p(install));
        commands.push(mkdir_p(data_path(install).as_str()));
        commands.push(mkdir_p(backups_path(install).as_str()));
        commands.push(write_file(compose_path(install).as_str(), compose.as_str().as_bytes()));
        commands.push(
            write_file(env_path(install).as_str(), self.opts.env_contents.as_str().as_bytes()),
        );
        assert(outcomes(commands@) =~= seq![
            mkdir_p_command(self.opts@.install_path),
            mkdir_p_command(data_path_of(self.opts@.install_path)),
            mkdir_p_command(backups_path_of(self.opts@.install_path)),
            write_file_command(compose_path_of(self.opts@.install_path), encode_utf8(compose@)),
            write_file_command(
                env_path_of(self.opts@.install_path),
                encode_utf8(self.opts@.env_contents),
            ),
        ]);
        self.run(BootstrapPhase::Layout, commands)
    }

    fn output(&mut self, out: ExecOutput) -> (r: ExecStep)
        requires
            old(self).wf(),
            bootstrap_wait(old(self)@) == Wait::Output,
            old(self).phase != BootstrapPhase::OldKey,
            old(self).phase != BootstrapPhase::NewKey,
            old(self).phase != BootstrapPhase::Health,
        ensures
            (final(self)@, r@) == bootstrap_output(old(self)@, out@),
            final(self).wf(),
            awaits(r@, bootstrap_wait(final(self)@)),
    {
        let ok = out.exit_code == 0;
        let record = state_path(self.opts.install_path.as_str());
        match self.phase {
            BootstrapPhase::Os => {
                let command = read_os_release();
                match out.ok_for(command.as_str()) {
                    Err(e) => self.fail(e),
                    Ok(out) => match parse_os_release(out.stdout_string().as_str()) {
                        None => self.fail(
                            RustmoteError::RelayUnsupportedOs(
                                "no recognized ID in /etc/os-release".to_owned(),
                            ),
                        ),
                        Some(os) => {
                            self.os = Some(os);
                            self.settle(
                                BootstrapPhase::Docker,
                                Step::Next(Action::Exec(check_docker_present())),
                            )
                        },
                    },
                }
            },
            BootstrapPhase::Docker => if ok {
                self.settle(
                    BootstrapPhase::ComposeV2,
                    Step::Next(Action::Exec(check_docker_compose_v2())),
                )
            } else {
                self.fail(RustmoteError::DockerEngineNotInstalled)
            },
            BootstrapPhase::ComposeV2 => if ok {
                let step = issue_command(test_dir_exists(self.opts.install_path.as_str()));
                self.settle(BootstrapPhase::InstallDir, step)
            } else {
                self.settle(
                    BootstrapPhase::ComposeV1,
                    Step::Next(Action::Exec(check_docker_compose_v1())),
                )
            },
            BootstrapPhase::ComposeV1 => if ok {
                self.fail(RustmoteError::DockerComposeV1Detected)
            } else {
                self.fail(RustmoteError::DockerEngineNotInstalled)
            },
            BootstrapPhase::InstallDir => if ok {
                let step = issue_command(test_file_exists(record.as_str()));
                self.settle(BootstrapPhase::StateFile, step)
            } else {
                self.settle(BootstrapPhase::Clock, Step::Next(Action::ReadClock))
            },
            BootstrapPhase::StateFile => if ok {
                let step = issue_command(cat_file(record.as_str()));
                self.settle(BootstrapPhase::StateText, step)
            } else {
                let path = self.opts.install_path.clone();
                self.fail(RustmoteError::RelayForeignInstall(path))
            },
            BootstrapPhase::StateText => match cat_file(record.as_str()) {
                Err(e) => self.fail(e),
                Ok(command) => match out.ok_for(command.as_str()) {
                    Err(e) => self.fail(e),
                    Ok(out) => self.settle(
                        BootstrapPhase::StateDecode,
                        Step::Next(
                            Action::DecodeState { text: out.stdout_string(), path: record },
                        ),
                    ),
                },
            },
            _ => {
                let phase = self.phase;
                match self.queue.advance(out) {
                    Step::Failed(e) => self.fail(e),
                    Step::Next(action) => self.settle(phase, Step::Next(action)),
                    Step::Done(_) => if matches!(phase, BootstrapPhase::Layout) {
                        let action = Action::EncodeState(self.state.as_ref().unwrap().clone());
                        self.settle(BootstrapPhase::Encode, Step::Next(action))
                    } else {
                        self.settle(BootstrapPhase::Health, Step::Next(Action::ReadTimer))
                    },
                }
            },
        }
    }

    /// Begins to install a relay.
    pub fn begin(opts: BootstrapOptions, timeout: TimeSpan, interval: TimeSpan) -> (r: (
        Bootstrap,
        ExecStep,
    ))
        ensures
            (r.0@, r.1@) == bootstrap_begin(
                opts@,
                (HealthCheck { timeout, interval, deadline: 0, phase: HealthPhase::Begin }),
            ),
            r.0.wf(),
            awaits(r.1@, bootstrap_wait(r.0@)),
    {
        let os = opts.os_hint;
        let mut m = Bootstrap {
            opts,
            health: HealthCheck::new(timeout, interval),
            phase: BootstrapPhase::Over,
            os,
            now: None,
            pins: Vec::new(),
            state: None,
            queue: CommandQueue::empty(),
        };
        assert(m@.pins =~= Seq::empty());
        let step = if os.is_some() {
            m.settle(
                BootstrapPhase::Docker,
                Step::Next(Action::Exec(check_docker_present())),
            )
        } else {
            m.settle(BootstrapPhase::Os, Step::Next(Action::Exec(read_os_release())))
        };
        (m, step)
    }

    /// Takes a reply in.
    pub fn step(&mut self, reply: Reply) -> (r: ExecStep)
        requires
            old(self).wf(),
            fits(bootstrap_wait(old(self)@), reply@),
        ensures
            (final(self)@, r@) == bootstrap_step(old(self)@, reply@),
            final(self).wf(),
            awaits(r@, bootstrap_wait(final(self)@)),
    {
        match self.phase {
            BootstrapPhase::OldKey => {
                let key = public_key_in(&reply);
                self.report(key, true)
            },
            BootstrapPhase::NewKey => {
                let key = public_key_in(&reply);
                self.report(key, false)
            },
            BootstrapPhase::Health => match self.health.step(reply) {
                Step::Next(action) => Step::Next(action),
                Step::Failed(e) => self.fail(e),
                Step::Done(_) => self.read_key(BootstrapPhase::NewKey),
            },
            _ => match reply {
                Reply::Failed(e) => self.fail(e),
                Reply::Output(out) => self.output(out),
                Reply::State(state) => {
                    self.state = Some(state);
                    self.read_key(BootstrapPhase::OldKey)
                },
                Reply::Clock(at) => {
                    self.now = Some(at);
                    self.resolve_pins()
                },
                Reply::Digest(digest) => {
                    let pin = ImagePin {
                        service: self.opts.services[self.pins.len()].clone(),
                        repo: self.opts.repo.clone(),
                        tag: self.opts.tag.clone(),
                        digest,
                        pinned_at: self.now.unwrap(),
                    };
                    proof {
                        lemma_views_push(self.pins@, pin);
                    }
                    self.pins.push(pin);
                    self.resolve_pins()
                },
                Reply::Encoded(text) => {
                    let install = self.opts.install_path.as_str();
                    let mut commands: Vec<Result<String, RustmoteError>> = Vec::new();
                    commands.push(
                        write_file(state_path(install).as_str(), text.as_str().as_bytes()),
                    );
                    commands.push(compose_up(install));
                    assert(outcomes(commands@) =~= seq![
                        write_file_command(
                            state_path_of(self.opts@.install_path),
                            encode_utf8(text@),
                        ),
                        compose_up_command(self.opts@.install_path),
                    ]);
                    self.run(BootstrapPhase::Start, commands)
                },
                _ => {
                    // No other reply fits.
                    assert(false);
                    Step::Failed(RustmoteError::RelayHealthCheckFailed)
                },
            },
        }
    }
}

} // verus!
