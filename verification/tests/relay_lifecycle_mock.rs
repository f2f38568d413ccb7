use std::collections::{HashMap, HashSet};

use base64::Engine;
use rustmote::error::RustmoteError;
use rustmote::relay_lifecycle::bootstrap::{BootstrapOptions, BootstrapReport};
use rustmote::relay_lifecycle::check::CheckUpdatesReport;
use rustmote::relay_lifecycle::os_release::OsKind;
use rustmote::relay_lifecycle::paths::{
    backup_dir_for, backups_path, compose_path, data_path, env_path, key_path, state_path,
};
use rustmote::relay_lifecycle::state::{ImagePin, RelayState};
use rustmote::relay_lifecycle::status::StatusReport;
use rustmote::relay_lifecycle::step::{Action, Reply, Step};
use rustmote::relay_lifecycle::update::{UpdateOptions, UpdateReport};
use rustmote::relay_lifecycle::RelayLifecycle;
use rustmote::session::ExecOutput;
use rustmote::time::{TimeSpan, Timestamp};

const INSTALL: &str = "/opt/rustmote-relay";
const REPO: &str = "rustdesk/rustdesk-server";
const DIGEST_V1: &str = "sha256:0123456789abcdef0123456789abcdef0123456789abcdef0123456789abcdef";
const DIGEST_V2: &str = "sha256:fedcba9876543210fedcba9876543210fedcba9876543210fedcba9876543210";

fn ok(stdout: &[u8]) -> ExecOutput {
    ExecOutput {
        stdout: stdout.to_vec(),
        stderr: vec![],
        exit_code: 0,
    }
}

fn nonzero(exit: u32) -> ExecOutput {
    ExecOutput {
        stdout: vec![],
        stderr: vec![],
        exit_code: exit,
    }
}

/// A remote host, an image registry and clocks, all in memory.
struct World {
    files: HashMap<String, Vec<u8>>,
    dirs: HashSet<String>,
    open_ports: HashSet<u16>,
    os_release: String,
    docker_present: bool,
    compose_v2_present: bool,
    compose_v1_present: bool,
    /// The ports that are open after each of the next starts of the services.
    ports_after_up: Vec<HashSet<u16>>,
    tags: Vec<String>,
    digests: HashMap<String, String>,
    now: Timestamp,
    timer: u64,
    /// How long the services have to come up.
    timeout_millis: u64,
    /// The records that were written as text, by their number.
    states: Vec<RelayState>,
    history: Vec<String>,
}

fn both_ports() -> HashSet<u16> {
    HashSet::from([21_116, 21_117])
}

impl World {
    fn healthy_debian() -> World {
        World {
            files: HashMap::new(),
            dirs: HashSet::new(),
            open_ports: both_ports(),
            os_release: "NAME=\"Debian GNU/Linux\"\nID=debian\n".to_string(),
            docker_present: true,
            compose_v2_present: true,
            compose_v1_present: false,
            ports_after_up: Vec::new(),
            tags: Vec::new(),
            digests: HashMap::new(),
            now: base_clock(),
            timer: 0,
            timeout_millis: 50,
            states: Vec::new(),
            history: Vec::new(),
        }
    }

    fn hub(mut self, tags: &[&str], digests: &[(&str, &str)]) -> World {
        self.tags = tags.iter().map(|t| t.to_string()).collect();
        self.digests = digests
            .iter()
            .map(|(t, d)| (t.to_string(), d.to_string()))
            .collect();
        self
    }

    fn encode(&mut self, state: RelayState) -> String {
        self.states.push(state);
        format!("state {}", self.states.len() - 1)
    }

    fn decode(&self, text: &str) -> Option<RelayState> {
        let number: usize = text.strip_prefix("state ")?.parse().ok()?;
        self.states.get(number).cloned()
    }

    fn text_of(&self, path: &str) -> String {
        String::from_utf8(self.files.get(path).unwrap().clone()).unwrap()
    }

    fn state_at(&self, path: &str) -> RelayState {
        self.decode(&self.text_of(path)).unwrap()
    }

    fn exec(&mut self, command: &str) -> ExecOutput {
        self.history.push(command.to_string());
        if command == "cat /etc/os-release" {
            return ok(self.os_release.as_bytes());
        }
        if command == "command -v docker" {
            return if self.docker_present { ok(b"/usr/bin/docker") } else { nonzero(1) };
        }
        if command == "docker compose version" {
            return if self.compose_v2_present { ok(b"v2.21.0") } else { nonzero(127) };
        }
        if command == "docker-compose --version" {
            return if self.compose_v1_present { ok(b"1.29.2") } else { nonzero(127) };
        }
        if let Some(p) = command.strip_prefix("test -d ") {
            return if self.dirs.contains(p) { ok(b"") } else { nonzero(1) };
        }
        if let Some(p) = command.strip_prefix("test -f ") {
            return if self.files.contains_key(p) { ok(b"") } else { nonzero(1) };
        }
        if let Some(p) = command.strip_prefix("mkdir -p ") {
            self.dirs.insert(p.to_string());
            return ok(b"");
        }
        if let Some(p) = command.strip_prefix("cat ") {
            return match self.files.get(p) {
                Some(v) => ok(v),
                None => nonzero(1),
            };
        }
        if let Some(rest) = command.strip_prefix("cp -a ") {
            let (src, dst) = rest.split_once(' ').unwrap();
            let data = self.files.get(src).cloned().unwrap();
            self.files.insert(dst.to_string(), data);
            return ok(b"");
        }
        if let Some(p) = command.strip_prefix("rm -rf ") {
            self.dirs.retain(|d| !d.starts_with(p));
            self.files.retain(|f, _| !f.starts_with(p));
            return ok(b"");
        }
        if let Some(rest) = command.strip_prefix("printf %s ") {
            let (b64, tail) = rest.split_once(" | base64 -d > ").unwrap();
            let (tmp, tail) = tail.split_once(" && mv ").unwrap();
            let (_, tail) = tail.split_once(' ').unwrap();
            let (dst, _) = tail.split_once(" && chmod 0644 ").unwrap();
            assert!(tmp.ends_with(".rustmote-tmp"));
            let decoded = base64::engine::general_purpose::STANDARD.decode(b64).unwrap();
            self.files.insert(dst.to_string(), decoded);
            return ok(b"");
        }
        if command.ends_with("docker compose up -d") {
            if !self.ports_after_up.is_empty() {
                self.open_ports = self.ports_after_up.remove(0);
            }
            return ok(b"");
        }
        if command.ends_with("docker compose pull") {
            return ok(b"");
        }
        if command.ends_with("docker compose config") {
            return ok(b"services: {}\n");
        }
        if command.ends_with("docker compose ps --format json") {
            let compose = self.text_of("/opt/rustmote-relay/docker-compose.yml");
            let tag = if compose.contains("1.1.14") { "1.1.14" } else { "1.1.11" };
            let row = |s: &str| {
                format!("{{\"Service\":\"{s}\",\"State\":\"running\",\"Image\":\"{REPO}:{tag}\"}}")
            };
            return ok(format!("[{},{}]", row("hbbs"), row("hbbr")).as_bytes());
        }
        if let Some(rest) = command.strip_prefix("bash -c 'exec 3<>/dev/tcp/127.0.0.1/") {
            let port: u16 = rest.split('\'').next().unwrap().parse().unwrap();
            return if self.open_ports.contains(&port) { ok(b"") } else { nonzero(1) };
        }
        if command.starts_with("find ") && command.contains("pre-update-") {
            let mut lines = String::new();
            for d in &self.dirs {
                if let Some((_, suffix)) = d.split_once("/pre-update-") {
                    lines.push_str(&format!("{}.0\t{d}\n", reinflate_iso(suffix)));
                }
            }
            return ok(lines.as_bytes());
        }
        panic!("unhandled command: {command}");
    }

    fn perform(&mut self, action: Action) -> Reply {
        match action {
            Action::Exec(command) => Reply::Output(self.exec(&command)),
            Action::ListTags(_) => Reply::Tags(self.tags.clone()),
            Action::ResolveDigest { tag, .. } => match self.digests.get(&tag) {
                Some(d) => Reply::Digest(d.clone()),
                None => Reply::Failed(RustmoteError::RegistryApi(format!(
                    "fake hub has no digest for tag {tag}"
                ))),
            },
            Action::DecodeState { text, path } => match self.decode(&text) {
                Some(state) => Reply::State(state),
                None => Reply::Failed(RustmoteError::ConfigParse {
                    path,
                    source: "no record".to_string(),
                }),
            },
            Action::EncodeState(state) => Reply::Encoded(self.encode(state)),
            Action::ReadClock => Reply::Clock(self.now),
            Action::ReadTimer => {
                self.timer += 1_000_000;
                Reply::Timer(self.timer)
            }
            Action::Sleep(_) => Reply::Rested,
        }
    }

    fn bootstrap(&mut self, opts: BootstrapOptions) -> Result<BootstrapReport, RustmoteError> {
        let (mut machine, mut step) = lifecycle(self.timeout_millis).bootstrap(opts);
        loop {
            match step {
                Step::Next(action) => step = machine.step(self.perform(action)),
                Step::Done(report) => return Ok(report),
                Step::Failed(e) => return Err(e),
            }
        }
    }

    fn check(&mut self) -> Result<CheckUpdatesReport, RustmoteError> {
        let (mut machine, mut step) = lifecycle(self.timeout_millis).check_updates(INSTALL);
        loop {
            match step {
                Step::Next(action) => step = machine.step(self.perform(action)),
                Step::Done(report) => return Ok(report),
                Step::Failed(e) => return Err(e),
            }
        }
    }

    fn update(&mut self, opts: UpdateOptions) -> Result<UpdateReport, RustmoteError> {
        let (mut machine, mut step) = lifecycle(self.timeout_millis).update(opts);
        loop {
            match step {
                Step::Next(action) => step = machine.step(self.perform(action)),
                Step::Done(report) => return Ok(report),
                Step::Failed(e) => return Err(e),
            }
        }
    }

    fn status(&mut self) -> Result<StatusReport, RustmoteError> {
        let (mut machine, mut step) = lifecycle(self.timeout_millis).status(INSTALL);
        loop {
            match step {
                Step::Next(action) => step = machine.step(self.perform(action)),
                Step::Done(report) => return Ok(report),
                Step::Failed(e) => return Err(e),
            }
        }
    }
}

/// Seconds since the epoch of `2026-04-18T12-34-56Z`.
fn reinflate_iso(s: &str) -> i64 {
    let (date, time) = s.split_once('T').unwrap();
    let text = format!("{date}T{}", time.replace('-', ":"));
    chrono::DateTime::parse_from_rfc3339(&text).unwrap().timestamp()
}

fn lifecycle(timeout_millis: u64) -> RelayLifecycle {
    RelayLifecycle::new()
        .with_health_check_interval(TimeSpan::from_millis(0))
        .with_health_check_timeout(TimeSpan::from_millis(timeout_millis))
}

fn compose_template() -> String {
    r"services:
  hbbs:
    image: rustdesk/rustdesk-server:1.1.11
    container_name: rustmote-hbbs
  hbbr:
    image: rustdesk/rustdesk-server:1.1.11
    container_name: rustmote-hbbr
"
    .to_string()
}

fn bootstrap_opts() -> BootstrapOptions {
    BootstrapOptions::new(
        compose_template(),
        "RUSTMOTE_RELAY=1\n".to_string(),
        "0.1.0".to_string(),
    )
}

fn update_opts() -> UpdateOptions {
    UpdateOptions {
        install_path: INSTALL.to_string(),
        compose_template: compose_template(),
        services: vec!["hbbs".to_string(), "hbbr".to_string()],
        repo: REPO.to_string(),
        assume_yes: true,
        is_tty: false,
        skip_backup: false,
        rustmote_version: "0.1.0".to_string(),
    }
}

fn base_clock() -> Timestamp {
    let t = chrono::DateTime::parse_from_rfc3339("2026-04-18T12:34:56Z").unwrap();
    Timestamp::new(t.timestamp(), 0).unwrap()
}

fn later(t: Timestamp, secs: i64) -> Timestamp {
    Timestamp::new(t.secs() + secs, t.nanos()).unwrap()
}

fn pin(service: &str, digest: &str) -> ImagePin {
    ImagePin {
        service: service.to_string(),
        repo: REPO.to_string(),
        tag: "1.1.11".to_string(),
        digest: digest.to_string(),
        pinned_at: base_clock(),
    }
}

fn seed_bootstrapped_host(world: &mut World, digest: &str) {
    world.dirs.insert(INSTALL.to_string());
    world.dirs.insert(data_path(INSTALL));
    world.dirs.insert(backups_path(INSTALL));
    let state = RelayState::new_bootstrap(
        base_clock(),
        "0.1.0",
        vec![pin("hbbs", digest), pin("hbbr", digest)],
    );
    let text = world.encode(state);
    world.files.insert(state_path(INSTALL), text.into_bytes());
    let compose = format!(
        "services:\n  hbbs:\n    image: {REPO}:1.1.11@{digest}\n  hbbr:\n    image: {REPO}:1.1.11@{digest}\n"
    );
    world.files.insert(compose_path(INSTALL), compose.into_bytes());
    world
        .files
        .insert(env_path(INSTALL), b"RUSTMOTE_RELAY=1\n".to_vec());
    world.files.insert(
        key_path(INSTALL),
        b"ssh-ed25519 AAAA... rustmote-relay\n".to_vec(),
    );
}

fn updatable() -> World {
    let mut world = World::healthy_debian().hub(
        &["1.1.11", "1.1.14"],
        &[("1.1.11", DIGEST_V1), ("1.1.14", DIGEST_V2)],
    );
    seed_bootstrapped_host(&mut world, DIGEST_V1);
    world.now = later(base_clock(), 3600);
    world
}

#[test]
fn bootstrap_writes_compose_state_env_and_starts_stack() {
    let mut world = World::healthy_debian().hub(
        &["1.1.11", "latest"],
        &[("1.1.11", DIGEST_V1), ("latest", DIGEST_V1)],
    );
    world.files.insert(
        key_path(INSTALL),
        b"ssh-ed25519 AAAA... rustmote-relay\n".to_vec(),
    );

    let report = world.bootstrap(bootstrap_opts()).unwrap();

    assert_eq!(report.detected_os, OsKind::Debian);
    assert!(!report.already_installed);
    assert_eq!(report.state.images.len(), 2);
    for p in &report.state.images {
        assert_eq!(p.tag, "1.1.11");
        assert_eq!(p.digest, DIGEST_V1);
    }
    assert_eq!(
        report.relay_public_key.as_deref(),
        Some("ssh-ed25519 AAAA... rustmote-relay")
    );
    let compose = world.text_of("/opt/rustmote-relay/docker-compose.yml");
    assert!(compose.contains(&format!(
        "image: rustdesk/rustdesk-server:1.1.11@{DIGEST_V1}"
    )));
    let parsed = world.state_at("/opt/rustmote-relay/.rustmote-state.toml");
    assert_eq!(parsed.install.bootstrapped_by_rustmote_version, "0.1.0");
    assert_eq!(parsed.install.last_updated_at, None);
    assert_eq!(parsed.images.len(), 2);
    assert_eq!(world.text_of("/opt/rustmote-relay/.env"), "RUSTMOTE_RELAY=1\n");
    assert!(world
        .history
        .contains(&"cd /opt/rustmote-relay && docker compose up -d".to_string()));
}

#[test]
fn bootstrap_is_idempotent_and_returns_existing_state() {
    let mut world = World::healthy_debian().hub(&["1.1.11"], &[("1.1.11", DIGEST_V1)]);
    world.dirs.insert(INSTALL.to_string());
    let existing = RelayState::new_bootstrap(base_clock(), "0.1.0", vec![pin("hbbs", DIGEST_V1)]);
    let text = world.encode(existing);
    world.files.insert(state_path(INSTALL), text.into_bytes());

    let report = world.bootstrap(bootstrap_opts()).unwrap();

    assert!(report.already_installed);
    assert_eq!(report.state.images.len(), 1);
    assert_eq!(report.relay_public_key, None);
    // Nothing was written.
    assert!(world
        .history
        .iter()
        .all(|c| !c.starts_with("mkdir") && !c.starts_with("printf") && !c.starts_with("cd ")));
}

#[test]
fn bootstrap_refuses_foreign_install_directory() {
    let mut world = World::healthy_debian().hub(&["1.1.11"], &[("1.1.11", DIGEST_V1)]);
    world.dirs.insert(INSTALL.to_string());
    let err = world.bootstrap(bootstrap_opts()).unwrap_err();
    assert!(matches!(err, RustmoteError::RelayForeignInstall(_)));
}

#[test]
fn bootstrap_aborts_on_docker_compose_v1_only() {
    let mut world = World::healthy_debian().hub(&["1.1.11"], &[("1.1.11", DIGEST_V1)]);
    world.compose_v2_present = false;
    world.compose_v1_present = true;
    let err = world.bootstrap(bootstrap_opts()).unwrap_err();
    assert!(matches!(err, RustmoteError::DockerComposeV1Detected));
}

#[test]
fn bootstrap_needs_an_engine_and_a_known_system() {
    let mut world = World::healthy_debian();
    world.docker_present = false;
    assert_eq!(
        world.bootstrap(bootstrap_opts()),
        Err(RustmoteError::DockerEngineNotInstalled)
    );
    let mut world = World::healthy_debian();
    world.compose_v2_present = false;
    assert_eq!(
        world.bootstrap(bootstrap_opts()),
        Err(RustmoteError::DockerEngineNotInstalled)
    );
    let mut world = World::healthy_debian();
    world.os_release = "ID=plan9\n".to_string();
    assert_eq!(
        world.bootstrap(bootstrap_opts()),
        Err(RustmoteError::RelayUnsupportedOs(
            "no recognized ID in /etc/os-release".to_string()
        ))
    );
    // A hint takes the place of the detection.
    let mut opts = bootstrap_opts();
    opts.os_hint = Some(OsKind::Arch);
    world.digests.insert("1.1.11".to_string(), DIGEST_V1.to_string());
    assert_eq!(world.bootstrap(opts).unwrap().detected_os, OsKind::Arch);
}

#[test]
fn bootstrap_resolves_digests_before_it_writes() {
    let mut world = World::healthy_debian();
    let err = world.bootstrap(bootstrap_opts()).unwrap_err();
    assert!(matches!(err, RustmoteError::RegistryApi(_)));
    assert!(world.history.iter().all(|c| !c.starts_with("mkdir")));
}

#[test]
fn bootstrap_fails_where_the_services_do_not_come_up() {
    let mut world = World::healthy_debian().hub(&[], &[("1.1.11", DIGEST_V1)]);
    world.ports_after_up = vec![HashSet::from([21_116])];
    assert_eq!(
        world.bootstrap(bootstrap_opts()),
        Err(RustmoteError::RelayHealthCheckFailed)
    );
}

#[test]
fn bootstrap_refuses_an_invalid_install_path() {
    let mut world = World::healthy_debian();
    let mut opts = bootstrap_opts();
    opts.install_path = "/opt/a b".to_string();
    assert_eq!(
        world.bootstrap(opts),
        Err(RustmoteError::InvalidRelayPath("/opt/a b".to_string()))
    );
}

#[test]
fn update_happy_path_rewrites_pins_and_stamps_last_updated_at() {
    let mut world = updatable();
    let update_time = world.now;
    let report = world.update(update_opts()).unwrap();

    assert!(report.changed);
    assert!(!report.rolled_back);
    assert_eq!(report.new_state.install.last_updated_at, Some(update_time));
    for p in &report.new_state.images {
        assert_eq!(p.tag, "1.1.14");
        assert_eq!(p.digest, DIGEST_V2);
    }
    let expected_backup = backup_dir_for(INSTALL, update_time);
    assert!(world.dirs.contains(&expected_backup));
    assert_eq!(report.backup_dir, Some(expected_backup.clone()));
    let parsed = world.state_at("/opt/rustmote-relay/.rustmote-state.toml");
    assert_eq!(parsed.images[0].digest, DIGEST_V2);
    // The compose file names the new tag and digest, and the backup holds the old files.
    let compose = world.text_of("/opt/rustmote-relay/docker-compose.yml");
    assert_eq!(
        compose.matches(&format!("image: {REPO}:1.1.14@{DIGEST_V2}\n")).count(),
        2
    );
    assert!(world
        .text_of(&format!("{expected_backup}/docker-compose.yml"))
        .contains(DIGEST_V1));
    assert_eq!(
        world.text_of(&format!("{expected_backup}/compose-config.yml")),
        "services: {}\n"
    );
}

#[test]
fn update_rolls_back_on_health_check_failure() {
    let mut world = updatable();
    world.timeout_millis = 30;
    world.ports_after_up = vec![HashSet::new(), both_ports()];
    let err = world.update(update_opts()).unwrap_err();
    assert!(matches!(err, RustmoteError::RelayHealthCheckFailed));

    let compose = world.text_of("/opt/rustmote-relay/docker-compose.yml");
    assert!(compose.contains(DIGEST_V1), "{compose}");
    let parsed = world.state_at("/opt/rustmote-relay/.rustmote-state.toml");
    assert_eq!(parsed.images[0].digest, DIGEST_V1);
}

#[test]
fn update_without_backup_still_goes_back() {
    let mut world = updatable();
    world.ports_after_up = vec![HashSet::new(), both_ports()];
    let mut opts = update_opts();
    opts.skip_backup = true;
    let err = world.update(opts).unwrap_err();
    assert!(matches!(err, RustmoteError::RelayHealthCheckFailed));
    assert!(world.history.iter().all(|c| !c.starts_with("cp ")));
    let compose = world.text_of("/opt/rustmote-relay/docker-compose.yml");
    assert!(compose.contains(&format!("image: {REPO}:1.1.11@{DIGEST_V1}\n")), "{compose}");
    let parsed = world.state_at("/opt/rustmote-relay/.rustmote-state.toml");
    assert_eq!(parsed.images[0].digest, DIGEST_V1);
    assert_eq!(parsed.install.last_updated_at, None);
}

#[test]
fn update_refuses_when_non_tty_and_not_assume_yes() {
    let mut world = updatable();
    let mut opts = update_opts();
    opts.assume_yes = false;
    let err = world.update(opts).unwrap_err();
    assert!(matches!(err, RustmoteError::RelayUpdateNotConfirmed));
    assert!(world.history.is_empty());
}

#[test]
fn update_short_circuits_when_already_up_to_date() {
    let mut world = World::healthy_debian().hub(&["1.1.11"], &[("1.1.11", DIGEST_V1)]);
    seed_bootstrapped_host(&mut world, DIGEST_V1);
    let report = world.update(update_opts()).unwrap();
    assert!(!report.changed);
    assert!(report.backup_dir.is_none());
    assert!(report.gc_deleted.is_empty());
    assert!(world
        .history
        .iter()
        .all(|c| c.starts_with("test -f ") || c.starts_with("cat ")));
}

#[test]
fn gc_removes_backups_older_than_seven_days_but_keeps_three_recent() {
    let mut world = World::healthy_debian().hub(&["1.1.14"], &[("1.1.14", DIGEST_V2)]);
    seed_bootstrapped_host(&mut world, DIGEST_V1);
    for days in [30, 5, 4, 3, 2] {
        let t = later(base_clock(), -days * 86_400);
        world.dirs.insert(backup_dir_for(INSTALL, t));
    }
    world.now = later(base_clock(), 3600);
    let report = world.update(update_opts()).unwrap();
    assert_eq!(report.gc_deleted.len(), 1, "{:?}", report.gc_deleted);
    assert!(report.gc_deleted[0].contains("pre-update-"));
    assert!(!world.dirs.contains(&report.gc_deleted[0]));
}

#[test]
fn check_updates_reads_and_reports() {
    let mut world = updatable();
    let report = world.check().unwrap();
    assert!(report.any_update_available());
    assert_eq!(report.images.len(), 2);
    assert_eq!(report.images[0].current_tag, "1.1.11");
    assert_eq!(report.images[0].latest_tag, "1.1.14");
    assert_eq!(
        world.history,
        [
            "test -f /opt/rustmote-relay/.rustmote-state.toml",
            "cat /opt/rustmote-relay/.rustmote-state.toml"
        ]
    );
    // Where no tag is a version, the pinned tag is resolved again.
    let mut world = World::healthy_debian().hub(&["latest"], &[("1.1.11", DIGEST_V2)]);
    seed_bootstrapped_host(&mut world, DIGEST_V1);
    let report = world.check().unwrap();
    assert_eq!(report.images[0].latest_tag, "1.1.11");
    assert_eq!(report.images[0].latest_digest, DIGEST_V2);
}

#[test]
fn operations_need_an_installed_relay() {
    let mut world = World::healthy_debian();
    let missing = RustmoteError::RelayNotInstalled(INSTALL.to_string());
    assert_eq!(world.check(), Err(missing));
    let missing = RustmoteError::RelayNotInstalled(INSTALL.to_string());
    assert_eq!(world.status(), Err(missing));
    let missing = RustmoteError::RelayNotInstalled(INSTALL.to_string());
    assert_eq!(world.update(update_opts()), Err(missing));
}

#[test]
fn malformed_record_surfaces_its_path() {
    let mut world = World::healthy_debian();
    world.files.insert(state_path(INSTALL), b"not [[valid".to_vec());
    match world.check().unwrap_err() {
        RustmoteError::ConfigParse { path, .. } => {
            assert_eq!(path, "/opt/rustmote-relay/.rustmote-state.toml");
        }
        other => panic!("unexpected error: {other:?}"),
    }
}

#[test]
fn status_lists_containers_and_key() {
    let mut world = updatable();
    let report = world.status().unwrap();
    assert_eq!(report.state.images.len(), 2);
    assert_eq!(report.containers.len(), 2);
    assert_eq!(report.containers[0].service, "hbbs");
    assert_eq!(
        report.relay_public_key.as_deref(),
        Some("ssh-ed25519 AAAA... rustmote-relay")
    );
}

#[test]
fn failed_actions_end_an_operation() {
    let (mut machine, step) = lifecycle(50).check_updates(INSTALL);
    assert!(matches!(step, Step::Next(Action::Exec(_))));
    let step = machine.step(Reply::Failed(RustmoteError::SshConnection("gone".to_string())));
    assert_eq!(
        step,
        Step::Failed(RustmoteError::SshConnection("gone".to_string()))
    );
}
