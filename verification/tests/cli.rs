use rustmote::cli::config::{
    apply_mode, mode_change_message, parse_and_gate_mode, show_rows, Row,
};
use rustmote::cli::connect::{
    has_default_ssh_keys, mark_used, password_or_none, pinned_message, plan_connect,
    resolve_password, resolve_target, resolve_via_name, tunnel_message, viewer_exited, ConnectArgs,
    PasswordSource,
};
use rustmote::cli::server::{
    change_message, check_name, detail_rows, list_cells, register, resolve_user, unregister,
    UserSource,
};
use rustmote::cli::status::{StatusReport, ViewerStatus};
use rustmote::cli::target::{
    check_id, known_addresses, network_or_refusal, plan_scan, scan_budget, scan_cells,
};
use rustmote::cli::{default_log_level, CommandError};
use rustmote::config::Config;
use rustmote::credentials::CredentialMode;
use rustmote::discovery::DiscoveredHost;
use rustmote::error::RustmoteError;
use rustmote::net::{Cidr, IpAddr};
use rustmote::path::PathStyle;
use rustmote::registry::RemoteServer;
use rustmote::session::known_hosts::{HostKey, KnownHosts, TofuPolicy};
use rustmote::target::Target;
use rustmote::time::{TimeSpan, Timestamp};
use rustmote::viewer::{Platform, ViewerSearch};

const HOST: IpAddr = IpAddr::V4(0x0a00_0001);

fn cfg_with(server: Option<&str>, targets: &[(&str, Option<&str>, Option<&str>)]) -> Config {
    let mut cfg = Config::default();
    if let Some(name) = server {
        cfg.add_server(RemoteServer::new(name, HOST, "charles", 22, 21_116))
            .unwrap();
    }
    for (id, label, via) in targets {
        let mut t = Target::new(id);
        t.label = label.map(|l| l.to_string());
        t.via_server = via.map(|v| v.to_string());
        cfg.add_target(t).unwrap();
    }
    cfg
}

fn search() -> ViewerSearch {
    ViewerSearch {
        platform: Platform::Linux,
        path_dirs: vec![],
        program_dirs: vec![],
        files: vec![],
        flatpak: false,
    }
}

fn texts(rows: &[Row]) -> Vec<(String, String)> {
    rows.iter()
        .map(|r| (r.key.clone(), r.value.clone()))
        .collect()
}

fn value(rows: &[Row], key: &str) -> String {
    rows.iter().find(|r| r.key == key).unwrap().value.clone()
}

#[test]
fn gate_refuses_unsafe_without_ack() {
    let err = parse_and_gate_mode("unsafe", false).unwrap_err();
    let msg = err.message();
    assert!(msg.contains("--i-understand-this-is-insecure"));
    assert!(msg.contains("§6.2"));
}

#[test]
fn gate_accepts_unsafe_with_ack() {
    let parsed = parse_and_gate_mode("unsafe", true).unwrap();
    assert_eq!(parsed, CredentialMode::Unsafe);
}

#[test]
fn gate_accepts_keychain_without_ack() {
    let parsed = parse_and_gate_mode("keychain", false).unwrap();
    assert_eq!(parsed, CredentialMode::Keychain);
}

#[test]
fn gate_rejects_unknown_mode() {
    let err = parse_and_gate_mode("bogus", false).unwrap_err();
    let msg = err.message();
    assert!(msg.contains("bogus"));
    assert!(msg.contains("prompt"));
    assert!(msg.contains("keychain"));
}

#[test]
fn apply_mode_changes_credential_mode_and_signals_save() {
    let mut cfg = Config::default();
    assert_eq!(cfg.general.credential_mode, CredentialMode::Prompt);
    let changed = apply_mode(&mut cfg, CredentialMode::Keychain);
    assert!(changed);
    assert_eq!(cfg.general.credential_mode, CredentialMode::Keychain);
}

#[test]
fn apply_mode_noop_returns_false() {
    let mut cfg = Config::default();
    let changed = apply_mode(&mut cfg, CredentialMode::Prompt);
    assert!(!changed);
    assert_eq!(cfg.general.credential_mode, CredentialMode::Prompt);
}

#[test]
fn mode_changes_are_announced() {
    assert_eq!(
        mode_change_message(CredentialMode::Prompt, CredentialMode::Unsafe),
        "credential_mode: prompt -> unsafe"
    );
    assert_eq!(
        mode_change_message(CredentialMode::Prompt, CredentialMode::Prompt),
        "credential_mode already prompt; no change"
    );
}

#[test]
fn resolve_target_by_registered_id() {
    let cfg = cfg_with(None, &[("123456789", Some("voron"), Some("zima"))]);
    let (id, matched) = resolve_target(&cfg, "123456789").unwrap();
    assert_eq!(id.as_str(), "123456789");
    assert_eq!(matched.unwrap().label.as_deref(), Some("voron"));
}

#[test]
fn resolve_target_by_label() {
    let cfg = cfg_with(None, &[("987654321", Some("voron"), None)]);
    let (id, matched) = resolve_target(&cfg, "voron").unwrap();
    assert_eq!(id.as_str(), "987654321");
    assert_eq!(matched.unwrap().id, "987654321");
}

#[test]
fn resolve_target_standalone_valid_id() {
    let cfg = Config::default();
    let (id, matched) = resolve_target(&cfg, "123456789").unwrap();
    assert_eq!(id.as_str(), "123456789");
    assert!(matched.is_none());
}

#[test]
fn resolve_target_rejects_unknown_label_and_bad_id() {
    let cfg = cfg_with(None, &[("123456789", Some("voron"), None)]);
    let err = resolve_target(&cfg, "not-a-known-label").unwrap_err();
    let msg = err.message();
    assert!(msg.contains("not-a-known-label"));
}

#[test]
fn stored_ids_are_checked() {
    let cfg = cfg_with(None, &[("bad", Some("voron"), None)]);
    assert_eq!(
        resolve_target(&cfg, "bad").unwrap_err().message(),
        "target 'bad' has stored id 'bad' that fails spec §3.5: invalid RustDesk target id 'bad'; expected 9 or 10 ASCII digits (spec §3.5)"
    );
    assert_eq!(
        resolve_target(&cfg, "voron").unwrap_err(),
        CommandError::Wrapped {
            context: "target with label 'voron' has stored id 'bad' that fails spec §3.5"
                .to_string(),
            cause: RustmoteError::InvalidTargetId("bad".to_string())
        }
    );
}

#[test]
fn resolve_via_name_prefers_cli_flag() {
    let cfg = cfg_with(None, &[]);
    let name = resolve_via_name(Some("cli-server"), None, &cfg).unwrap();
    assert_eq!(name, "cli-server");
}

#[test]
fn resolve_via_name_uses_target_via_server_next() {
    let cfg = cfg_with(None, &[]);
    let mut t = Target::new("123456789");
    t.via_server = Some("target-server".to_string());
    let name = resolve_via_name(None, Some(&t), &cfg).unwrap();
    assert_eq!(name, "target-server");
}

#[test]
fn resolve_via_name_falls_back_to_default_server() {
    let mut cfg = Config::default();
    cfg.general.default_server = Some("default-server".to_string());
    let name = resolve_via_name(None, None, &cfg).unwrap();
    assert_eq!(name, "default-server");
}

#[test]
fn resolve_via_name_errors_when_nothing_resolves() {
    let cfg = Config::default();
    assert!(resolve_via_name(None, None, &cfg).is_err());
}

fn args(target: &str, via: Option<&str>, user: Option<&str>) -> ConnectArgs {
    ConnectArgs {
        target: target.to_string(),
        via: via.map(|v| v.to_string()),
        user: user.map(|u| u.to_string()),
    }
}

#[test]
fn connections_are_planned() {
    let cfg = cfg_with(Some("zima"), &[("123456789", Some("voron"), Some("zima"))]);
    let plan = plan_connect(&cfg, &args("voron", None, Some("root"))).unwrap();
    assert_eq!(plan.target.as_str(), "123456789");
    assert_eq!(plan.via_name, "zima");
    assert_eq!(plan.server.ssh_user, "root");
    assert_eq!(cfg.get_server("zima").unwrap().ssh_user, "charles");
    let plan = plan_connect(&cfg, &args("987654321", Some("zima"), None)).unwrap();
    assert_eq!(plan.server.ssh_user, "charles");
    assert_eq!(
        plan_connect(&cfg, &args("123456789", Some("nope"), None))
            .unwrap_err()
            .message(),
        "resolving relay server 'nope': server 'nope' not in registry"
    );
}

#[test]
fn connect_without_via_and_no_default_fails_cleanly() {
    let cfg = Config::default();
    let e = plan_connect(&cfg, &args("123456789", None, None)).unwrap_err();
    assert_eq!(
        e.message(),
        "no relay server resolved: pass --via <server>, set target.via_server, or set general.default_server"
    );
}

#[test]
fn connections_are_noted() {
    let mut cfg = cfg_with(Some("zima"), &[]);
    let now = Timestamp::new(5, 0).unwrap();
    mark_used(&mut cfg, "zima", now).unwrap();
    assert_eq!(cfg.get_server("zima").unwrap().last_used, Some(now));
    assert_eq!(
        mark_used(&mut cfg, "nope", now).unwrap_err().message(),
        "updating server last_used: server 'nope' not in registry"
    );
}

#[test]
fn default_keys_spare_the_prompt() {
    let files = |f: &str| vec![f.to_string()];
    assert!(has_default_ssh_keys(PathStyle::Unix, Some("/h"), &files("/h/.ssh/id_ed25519")));
    assert!(has_default_ssh_keys(PathStyle::Unix, Some("/h"), &files("/h/.ssh/id_rsa")));
    assert!(!has_default_ssh_keys(PathStyle::Unix, Some("/h"), &files("/h/.ssh/id_dsa")));
    assert!(!has_default_ssh_keys(PathStyle::Unix, None, &files("/h/.ssh/id_rsa")));
    let key = files(r"C:\Users\c\.ssh\id_rsa");
    assert!(has_default_ssh_keys(PathStyle::Windows, Some(r"C:\Users\c"), &key));
    assert!(!has_default_ssh_keys(PathStyle::Unix, Some(r"C:\Users\c"), &key));
}

#[test]
fn a_password_that_is_not_stored_is_no_failure() {
    assert_eq!(
        password_or_none(Ok("pw".to_string())),
        Ok(Some("pw".to_string()))
    );
    let missing = RustmoteError::NoStoredCredential {
        server: "s".to_string(),
        user: "u".to_string(),
    };
    assert_eq!(password_or_none(Err(missing)), Ok(None));
    assert_eq!(
        password_or_none(Err(RustmoteError::InsecureCredentialsFile(0o644))),
        Err(RustmoteError::InsecureCredentialsFile(0o644))
    );
}

#[test]
fn connect_messages_are_exact() {
    assert_eq!(
        pinned_message("10.0.0.1", 22),
        "pinned new host key for 10.0.0.1:22 (TOFU first use)"
    );
    assert_eq!(
        tunnel_message(4000, "10.0.0.1", 21116, "123456789"),
        "tunnel up: 127.0.0.1:4000 -> 10.0.0.1:21116 (target 123456789)"
    );
    assert_eq!(viewer_exited(true, "exit status: 0"), Ok(()));
    assert_eq!(
        viewer_exited(false, "exit status: 1").unwrap_err().message(),
        "RustDesk viewer exited with exit status: 1; tunnel has been torn down"
    );
}

#[test]
fn report_build_on_empty_config_has_sensible_defaults() {
    let cfg = Config::default();
    let known = KnownHosts::default();
    let report = StatusReport::build(&cfg, "/tmp/config.toml", &known, &search());
    assert_eq!(report.credential_mode, "prompt");
    assert_eq!(report.servers, 0);
    assert_eq!(report.targets, 0);
    assert_eq!(report.pinned_hosts, 0);
    assert!(report.default_server.is_none());
}

#[test]
fn status_report_is_shown() {
    let cfg = cfg_with(Some("zima"), &[("123456789", None, None)]);
    let mut known = KnownHosts::default();
    let key = HostKey {
        fingerprint: "SHA256:a".to_string(),
        key_type: "ssh-rsa".to_string(),
        first_seen: Timestamp::new(0, 0).unwrap(),
    };
    known.verify_or_pin("a", 22, &key, TofuPolicy::TrustOnFirstUse);
    known.verify_or_pin("b", 22, &key, TofuPolicy::TrustOnFirstUse);
    let mut s = search();
    s.files = vec!["/usr/bin/rustdesk".to_string()];
    let report = StatusReport::build(&cfg, "/c", &known, &s);
    assert_eq!(
        report.viewer,
        ViewerStatus::Native {
            path: "/usr/bin/rustdesk".to_string()
        }
    );
    let rows = report.rows();
    assert_eq!(value(&rows, "config_path"), "/c");
    assert_eq!(value(&rows, "default_server"), "(none)");
    assert_eq!(value(&rows, "servers"), "1");
    assert_eq!(value(&rows, "viewer"), "native: /usr/bin/rustdesk");
    assert_eq!(value(&rows, "pinned_hosts"), "2");
    let mut s = search();
    s.flatpak = true;
    let report = StatusReport::build(&cfg, "/c", &known, &s);
    assert_eq!(
        value(&report.rows(), "viewer"),
        "flatpak (com.rustdesk.RustDesk)"
    );
    let report = StatusReport::build(&cfg, "/c", &known, &search());
    assert_eq!(value(&report.rows(), "viewer"), "not found");
}

#[test]
fn settings_are_shown() {
    let mut cfg = cfg_with(Some("zima"), &[]);
    assert_eq!(
        texts(&show_rows(&cfg, "/c/config.toml")),
        [
            ("config_path", "/c/config.toml"),
            ("credential_mode", "prompt"),
            ("default_server", "(none)"),
            ("viewer_path", "(auto-detect)"),
            ("servers", "1"),
            ("targets", "0")
        ]
        .map(|(k, v)| (k.to_string(), v.to_string()))
    );
    cfg.general.default_server = Some("zima".to_string());
    cfg.general.viewer_path = "/v".to_string();
    let rows = show_rows(&cfg, "/c");
    assert_eq!(value(&rows, "default_server"), "zima");
    assert_eq!(value(&rows, "viewer_path"), "/v");
}

#[test]
fn server_add_list_show_roundtrip() {
    let mut cfg = Config::default();
    check_name("zima-brain").unwrap();
    let at = Timestamp::new(1_776_515_696, 0).unwrap();
    let server = RemoteServer::new_at("zima-brain", HOST, "charles", 22, 21_116, at);
    register(&mut cfg, server.clone()).unwrap();
    let shown = cfg.get_server("zima-brain").unwrap();
    assert_eq!(
        list_cells(shown, "10.0.0.1"),
        ["zima-brain", "10.0.0.1", "22", "charles", "21116", "2026-04-18"]
    );
    let rows = detail_rows(shown, "10.0.0.1");
    assert_eq!(value(&rows, "created_at"), "2026-04-18T12:34:56+00:00");
    assert_eq!(value(&rows, "last_used"), "—");
    assert_eq!(value(&rows, "relay_key"), "—");
    assert_eq!(value(&rows, "ssh_user"), "charles");
    assert_eq!(
        register(&mut cfg, server).unwrap_err().message(),
        "adding server to registry: server 'zima-brain' is already registered"
    );
    assert_eq!(unregister(&mut cfg, "zima-brain").unwrap().name, "zima-brain");
    assert_eq!(
        unregister(&mut cfg, "zima-brain").unwrap_err().message(),
        "removing server: server 'zima-brain' not in registry"
    );
    assert_eq!(
        change_message("added", "zima-brain", "10.0.0.1"),
        "added server 'zima-brain' (10.0.0.1)"
    );
}

#[test]
fn server_add_rejects_invalid_name_per_spec_6_4() {
    let e = check_name("bad;name").unwrap_err();
    assert!(e.message().contains("invalid server name"));
    assert!(e.message().starts_with("validating server name against spec §6.4: "));
}

#[test]
fn server_add_without_user_on_non_tty_fails_with_clear_message() {
    match resolve_user(None, false, "zima") {
        UserSource::Missing(e) => assert!(e.message().contains("--user")),
        other => panic!("unexpected {other:?}"),
    }
    assert_eq!(
        resolve_user(None, true, "zima"),
        UserSource::Ask("SSH username for 'zima'".to_string())
    );
    assert_eq!(
        resolve_user(Some("u".to_string()), false, "zima"),
        UserSource::Given("u".to_string())
    );
}

#[test]
fn target_add_list_remove_roundtrip() {
    let mut cfg = cfg_with(Some("zima"), &[]);
    rustmote::cli::target::register(&mut cfg, "123456789", Some("voron"), Some("zima")).unwrap();
    let t = cfg.get_target("123456789").unwrap();
    assert_eq!(
        rustmote::cli::target::list_cells(t, &None),
        ["123456789", "voron", "zima", "—", "—"]
    );
    let mut seen = t.clone();
    seen.last_seen = Some(Timestamp::new(0, 0).unwrap());
    assert_eq!(
        rustmote::cli::target::list_cells(&seen, &Some("10.0.0.42".to_string())),
        ["123456789", "voron", "zima", "10.0.0.42", "1970-01-01"]
    );
    let e = rustmote::cli::target::register(&mut cfg, "123456789", None, None).unwrap_err();
    assert_eq!(
        e.message(),
        "adding target to registry: target '123456789' is already registered"
    );
    let removed = rustmote::cli::target::unregister(&mut cfg, "123456789").unwrap();
    assert_eq!(removed.id, "123456789");
    let e = rustmote::cli::target::unregister(&mut cfg, "123456789").unwrap_err();
    assert_eq!(e.message(), "removing target: target '123456789' not in registry");
    assert_eq!(
        rustmote::cli::target::change_message("removed", "1"),
        "removed target '1'"
    );
}

#[test]
fn target_add_rejects_invalid_id_per_spec_3_5() {
    let mut cfg = Config::default();
    let e = rustmote::cli::target::register(&mut cfg, "not-digits", None, None).unwrap_err();
    assert!(e.message().contains("invalid RustDesk target id"));
}

#[test]
fn target_add_rejects_unknown_via_server() {
    let mut cfg = Config::default();
    let e =
        rustmote::cli::target::register(&mut cfg, "123456789", None, Some("nope")).unwrap_err();
    assert_eq!(
        e.message(),
        "--via 'nope' is not in the registry: server 'nope' not in registry"
    );
    assert!(cfg.targets().is_empty());
}

#[test]
fn scans_know_the_servers() {
    let cfg = cfg_with(Some("zima"), &[]);
    assert_eq!(known_addresses(&cfg), [HOST]);
    assert_eq!(scan_budget(None), TimeSpan::from_secs(9));
    assert_eq!(scan_budget(Some(3)), TimeSpan::from_secs(3));
    let host = DiscoveredHost {
        ip: HOST,
        hostname: None,
        mac: Some("aa:bb:cc:dd:ee:ff".to_string()),
        is_known_server: true,
    };
    assert_eq!(
        scan_cells(&host, "10.0.0.1"),
        ["10.0.0.1", "—", "aa:bb:cc:dd:ee:ff", "server"]
    );
}

#[test]
fn log_levels_follow_the_flag() {
    assert_eq!(default_log_level(0), "warn");
    assert_eq!(default_log_level(1), "info");
    assert_eq!(default_log_level(2), "debug");
    assert_eq!(default_log_level(3), "trace");
    assert_eq!(default_log_level(255), "trace");
}

#[test]
fn scans_are_planned() {
    let cfg = cfg_with(Some("relay-01"), &[]);
    let driver = plan_scan(&cfg, Some("192.168.1.77/24"), Some(3)).unwrap();
    assert_eq!(driver.cidr, Cidr::new(0xC0A8_014D, 24));
    assert_eq!(driver.timeout, TimeSpan::from_secs(3));
    assert_eq!(driver.known_servers, known_addresses(&cfg));

    let driver = plan_scan(&cfg, None, None).unwrap();
    assert_eq!(driver.cidr, None);
    assert_eq!(driver.timeout, TimeSpan::from_secs(9));
}

#[test]
fn scans_of_no_network_are_refused() {
    let cfg = cfg_with(None, &[]);
    for text in ["", "192.168.1.0", "192.168.1.0/33", "192.168.1/24", "fe80::/64", "lan"] {
        let err = plan_scan(&cfg, Some(text), None).unwrap_err();
        assert_eq!(
            err,
            CommandError::Explained {
                context: format!("parsing --cidr '{text}'"),
                reason: "invalid IP address syntax".to_string(),
            }
        );
    }
    let net = Cidr::new(0x0A00_0000, 8).unwrap();
    assert_eq!(network_or_refusal("10.0.0.0/8", Some(net)), Ok(net));
    assert_eq!(
        network_or_refusal("x", None).unwrap_err().message(),
        "parsing --cidr 'x': invalid IP address syntax"
    );
}

#[test]
fn keys_or_the_store_give_the_password() {
    let cfg = cfg_with(Some("relay-01"), &[]);
    let server = cfg.get_server("relay-01").unwrap();
    let key = vec!["/h/.ssh/id_rsa".to_string()];
    assert_eq!(
        resolve_password(PathStyle::Unix, server, Some("/h"), &key),
        PasswordSource::NoOne
    );
    let store = PasswordSource::Store {
        server: "relay-01".to_string(),
        user: server.ssh_user.clone(),
    };
    assert_eq!(resolve_password(PathStyle::Unix, server, Some("/other"), &key), store);
    assert_eq!(resolve_password(PathStyle::Unix, server, None, &key), store);
}

#[test]
fn target_ids_are_checked() {
    assert_eq!(check_id("123456789"), Ok(()));
    assert_eq!(
        check_id("12345678"),
        Err(CommandError::Wrapped {
            context: "validating target id against spec §3.5".to_string(),
            cause: RustmoteError::InvalidTargetId("12345678".to_string()),
        })
    );
}
