use rustmote::config::{
    config_path, credentials_path, Config, GeneralConfig, CONFIG_DIR_ENV, CONFIG_FILE_NAME,
    CREDENTIALS_FILE_NAME,
};
use rustmote::credentials::CredentialMode;
use rustmote::error::RustmoteError;
use rustmote::net::IpAddr;
use rustmote::path::PathStyle;
use rustmote::registry::RemoteServer;
use rustmote::storage::{program_dir, resolve_dir, stored_or, tmp_path, StoredFile};
use rustmote::target::Target;
use rustmote::time::Timestamp;

fn v4(a: u32, b: u32, c: u32, d: u32) -> IpAddr {
    IpAddr::V4((a << 24) | (b << 16) | (c << 8) | d)
}

fn sample_server(name: &str) -> RemoteServer {
    RemoteServer::new(
        name,
        v4(10, 0, 0, 1),
        "charles",
        RemoteServer::DEFAULT_SSH_PORT,
        RemoteServer::DEFAULT_RELAY_PORT,
    )
}

#[test]
fn add_and_get_server() {
    let mut cfg = Config::default();
    cfg.add_server(sample_server("zima-brain")).unwrap();
    assert_eq!(cfg.servers().len(), 1);
    let s = cfg.get_server("zima-brain").unwrap();
    assert_eq!(s.ssh_user, "charles");
    assert_eq!(s.ssh_port, 22);
    assert_eq!(s.relay_port, 21116);
}

#[test]
fn add_rejects_duplicate_name() {
    let mut cfg = Config::default();
    cfg.add_server(sample_server("zima-brain")).unwrap();
    let err = cfg.add_server(sample_server("zima-brain")).unwrap_err();
    assert!(matches!(err, RustmoteError::ServerAlreadyExists(name) if name == "zima-brain"));
}

#[test]
fn get_unknown_errors() {
    let cfg = Config::default();
    let err = cfg.get_server("missing").unwrap_err();
    assert!(matches!(err, RustmoteError::UnknownServer(name) if name == "missing"));
}

#[test]
fn remove_returns_entry_and_shrinks() {
    let mut cfg = Config::default();
    cfg.add_server(sample_server("a")).unwrap();
    cfg.add_server(sample_server("b")).unwrap();
    let removed = cfg.remove_server("a").unwrap();
    assert_eq!(removed.name, "a");
    assert_eq!(cfg.servers().len(), 1);
    assert_eq!(cfg.servers()[0].name, "b");
}

#[test]
fn update_server_applies_closure() {
    let mut cfg = Config::default();
    cfg.add_server(sample_server("zima-brain")).unwrap();
    cfg.update_server("zima-brain", |s: &mut RemoteServer| {
        s.relay_key = Some("AAAA...".to_string());
        s.last_used = Some(Timestamp::now());
    })
    .unwrap();
    let s = cfg.get_server("zima-brain").unwrap();
    assert_eq!(s.relay_key.as_deref(), Some("AAAA..."));
    assert!(s.last_used.is_some());
    assert_eq!(
        cfg.update_server("nobody", |_: &mut RemoteServer| {}),
        Err(RustmoteError::UnknownServer("nobody".to_string()))
    );
}

#[test]
fn removal_undoes_registration() {
    let mut cfg = Config::default();
    cfg.add_server(sample_server("a")).unwrap();
    let before = cfg.clone();
    cfg.add_server(sample_server("b")).unwrap();
    cfg.remove_server("b").unwrap();
    assert_eq!(cfg, before);
    assert_eq!(
        cfg.remove_server("b"),
        Err(RustmoteError::UnknownServer("b".to_string()))
    );
    assert_eq!(cfg, before);
}

#[test]
fn new_server_is_stamped_with_the_clock() {
    let before = chrono::Utc::now().timestamp();
    let s = sample_server("a");
    let after = chrono::Utc::now().timestamp();
    assert!(before <= s.created_at.secs() && s.created_at.secs() <= after);
    assert_eq!((s.relay_key, s.last_used), (None, None));
}

#[test]
fn validate_name_accepts_allowlist() {
    for ok in ["a", "zima-brain", "a_b_C-1", &"x".repeat(64)] {
        assert!(
            RemoteServer::validate_name(ok).is_ok(),
            "should accept {ok}"
        );
    }
}

#[test]
fn validate_name_rejects_bad_input() {
    for bad in [
        "",
        &"x".repeat(65),
        "has space",
        "semi;colon",
        "dot.name",
        "slash/name",
        "emoji🦀",
        "tab\tname",
    ] {
        assert!(
            RemoteServer::validate_name(bad).is_err(),
            "should reject {bad:?}"
        );
    }
}

#[test]
fn target_crud_works() {
    let mut cfg = Config::default();
    cfg.add_target(Target::new("123456789")).unwrap();
    assert_eq!(cfg.targets().len(), 1);
    let t = cfg.get_target("123456789").unwrap();
    assert_eq!(t.id, "123456789");

    let err = cfg.add_target(Target::new("123456789")).unwrap_err();
    assert!(matches!(err, RustmoteError::TargetAlreadyExists(_)));

    let removed = cfg.remove_target("123456789").unwrap();
    assert_eq!(removed.id, "123456789");
    assert!(cfg.targets().is_empty());
    assert_eq!(
        cfg.get_target("123456789"),
        Err(RustmoteError::UnknownTarget("123456789".to_string()))
    );
}

#[test]
fn new_populates_only_id() {
    let t = Target::new("123456789");
    assert_eq!(t.id, "123456789");
    assert!(t.ip.is_none() && t.label.is_none() && t.via_server.is_none() && t.last_seen.is_none());
}

#[test]
fn default_is_empty() {
    let cfg = Config::default();
    assert!(cfg.servers().is_empty());
    assert!(cfg.targets().is_empty());
    assert_eq!(cfg.general.credential_mode, CredentialMode::Prompt);
    assert!(cfg.general.default_server.is_none());
    assert!(cfg.general.viewer_path.is_empty());
}

#[test]
fn load_missing_returns_default() {
    let cfg = stored_or("/x/config.toml", StoredFile::Missing, Config::default()).unwrap();
    assert_eq!(cfg, Config::default());
}

#[test]
fn missing_file_loads_as_default() {
    let mut held = Config::default();
    held.add_server(sample_server("a")).unwrap();
    let loaded = stored_or("/c", StoredFile::Holds(held.clone()), Config::default()).unwrap();
    assert_eq!(loaded, held);
    let loaded: Config = stored_or("/c", StoredFile::Missing, Config::default()).unwrap();
    assert_eq!(loaded, Config::default());
}

#[test]
fn stored_file_failures_are_told_apart() {
    assert_eq!(
        stored_or("/c", StoredFile::Malformed("bad".to_string()), 1u8),
        Err(RustmoteError::ConfigParse {
            path: "/c".to_string(),
            source: "bad".to_string()
        })
    );
    assert_eq!(
        stored_or("/c", StoredFile::Unreadable("denied".to_string()), 1u8),
        Err(RustmoteError::Io("denied".to_string()))
    );
}

#[test]
fn viewer_override_empty_is_none() {
    let g = GeneralConfig::default();
    assert!(g.viewer_override().is_none());
}

#[test]
fn viewer_override_nonempty_returns_path() {
    let g = GeneralConfig {
        viewer_path: "/opt/rustdesk/rustdesk".to_string(),
        ..GeneralConfig::default()
    };
    assert_eq!(g.viewer_override(), Some("/opt/rustdesk/rustdesk"));
}

#[test]
fn file_names_match_spec() {
    assert_eq!(CONFIG_FILE_NAME, "config.toml");
    assert_eq!(CREDENTIALS_FILE_NAME, "credentials.toml");
}

#[test]
fn directories_follow_the_environment_first() {
    assert_eq!(CONFIG_DIR_ENV, "RUSTMOTE_CONFIG_DIR");
    let named = Some("/scratch".to_string());
    let platform = Some("/home/c/.config/rustmote".to_string());
    let dir = resolve_dir(named.clone(), platform.clone());
    assert_eq!(config_path(PathStyle::Unix, dir), Ok("/scratch/config.toml".to_string()));
    let dir = resolve_dir(None, platform);
    assert_eq!(
        credentials_path(PathStyle::Unix, dir),
        Ok("/home/c/.config/rustmote/credentials.toml".to_string())
    );
    assert_eq!(
        config_path(PathStyle::Unix, resolve_dir(None, None)),
        Err(RustmoteError::NoConfigDir)
    );
    assert_eq!(tmp_path("/a/config.toml"), "/a/config.toml.tmp");
}

#[test]
fn windows_paths_have_backslashes() {
    let base = Some(r"C:\Users\c\AppData\Roaming".to_string());
    let dir = program_dir(PathStyle::Windows, base);
    assert_eq!(dir.as_deref(), Some(r"C:\Users\c\AppData\Roaming\rustmote"));
    assert_eq!(
        config_path(PathStyle::Windows, resolve_dir(None, dir.clone())),
        Ok(r"C:\Users\c\AppData\Roaming\rustmote\config.toml".to_string())
    );
    assert_eq!(
        credentials_path(PathStyle::Windows, resolve_dir(None, dir)),
        Ok(r"C:\Users\c\AppData\Roaming\rustmote\credentials.toml".to_string())
    );
    let base = Some("/home/c/.config".to_string());
    assert_eq!(
        program_dir(PathStyle::Unix, base).as_deref(),
        Some("/home/c/.config/rustmote")
    );
    assert_eq!(program_dir(PathStyle::Unix, None), None);
}
