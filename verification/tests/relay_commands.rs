use base64::Engine;
use rustmote::error::RustmoteError;
use rustmote::relay_lifecycle::commands::{
    cat_file, check_docker_compose_v1, check_docker_compose_v2, check_docker_present,
    compose_config, compose_logs_tail, compose_ps_json, compose_pull, compose_up, copy_file,
    list_backups, mkdir_p, pinned_image_ref, read_os_release, remove_tree, tcp_probe,
    test_dir_exists, test_file_exists, validate_backup_suffix, validate_digest,
    validate_remote_path, validate_repo, validate_tag, write_file,
};
use rustmote::relay_lifecycle::paths::{
    backup_dir_for, backup_dir_named, backups_path, compose_path, data_path, env_path, key_path,
    state_path,
};
use rustmote::time::Timestamp;

const DIGEST: &str = "sha256:0123456789abcdef0123456789abcdef0123456789abcdef0123456789abcdef";

#[test]
fn validate_remote_path_accepts_simple_absolute() {
    assert_eq!(
        validate_remote_path("/opt/rustmote-relay").unwrap(),
        "/opt/rustmote-relay"
    );
}

#[test]
fn validate_remote_path_rejects_relative_and_parent_components() {
    assert!(validate_remote_path("opt/rustmote").is_err());
    assert!(validate_remote_path("/opt/../etc").is_err());
}

#[test]
fn validate_remote_path_rejects_shell_meta() {
    for bad in [
        "/opt/$HOME",
        "/opt/foo bar",
        "/opt/`whoami`",
        "/opt/;rm",
        "/opt/foo\n",
    ] {
        assert!(validate_remote_path(bad).is_err(), "should reject {bad}");
    }
}

#[test]
fn remote_path_edge_cases() {
    assert!(validate_remote_path("/").is_ok());
    assert!(validate_remote_path("//a//").is_ok());
    assert!(validate_remote_path("/a/..b").is_ok());
    assert!(validate_remote_path("/a/...").is_ok());
    assert!(validate_remote_path("/a..").is_ok());
    assert!(validate_remote_path("/..").is_err());
    assert!(validate_remote_path("/a/..").is_err());
    assert!(validate_remote_path("").is_err());
    assert!(validate_remote_path("/caf\u{e9}").is_err());
    match validate_remote_path("rel") {
        Err(RustmoteError::InvalidRelayPath(p)) => assert_eq!(p, "rel"),
        other => panic!("unexpected {other:?}"),
    }
}

#[test]
fn validate_repo_accepts_canonical_rustdesk() {
    assert_eq!(
        validate_repo("rustdesk/rustdesk-server").unwrap(),
        "rustdesk/rustdesk-server"
    );
}

#[test]
fn validate_repo_rejects_uppercase_or_meta() {
    for bad in [
        "RustDesk/rustdesk-server",
        "rustdesk/rustdesk;server",
        "rustdesk/../etc",
    ] {
        assert!(validate_repo(bad).is_err(), "should reject {bad}");
    }
}

#[test]
fn repo_edge_cases() {
    assert!(validate_repo("").is_err());
    assert!(validate_repo(&"a".repeat(255)).is_ok());
    assert!(validate_repo(&"a".repeat(256)).is_err());
    for bad in ["/a", ".a", "-a", "_a", "a/", "a.", "a-", "a_", "a/../b"] {
        assert!(validate_repo(bad).is_err(), "should reject {bad}");
    }
    match validate_repo("A") {
        Err(RustmoteError::InvalidImageRef(p)) => assert_eq!(p, "repo=A"),
        other => panic!("unexpected {other:?}"),
    }
}

#[test]
fn validate_tag_accepts_common_semver() {
    for ok in ["1.1.11", "1.2.3-rc1", "latest"] {
        assert_eq!(validate_tag(ok).unwrap(), ok);
    }
}

#[test]
fn validate_tag_rejects_leading_dot_or_dash_or_meta() {
    for bad in [".hidden", "-dash", "tag with space", "tag;evil"] {
        assert!(validate_tag(bad).is_err(), "should reject {bad}");
    }
}

#[test]
fn tag_edge_cases() {
    assert!(validate_tag("").is_err());
    assert!(validate_tag("_x").is_ok());
    assert!(validate_tag(&"a".repeat(128)).is_ok());
    assert!(validate_tag(&"a".repeat(129)).is_err());
    match validate_tag("-x") {
        Err(RustmoteError::InvalidImageRef(p)) => assert_eq!(p, "tag=-x"),
        other => panic!("unexpected {other:?}"),
    }
}

#[test]
fn validate_digest_accepts_sha256_hex() {
    assert_eq!(validate_digest(DIGEST).unwrap(), DIGEST);
}

#[test]
fn validate_digest_rejects_uppercase_short_or_wrong_alg() {
    for bad in [
        "sha512:0123456789abcdef0123456789abcdef0123456789abcdef0123456789abcdef",
        "sha256:ABC",
        "sha256:0123456789ABCDEF0123456789abcdef0123456789abcdef0123456789abcdef",
    ] {
        assert!(validate_digest(bad).is_err(), "should reject {bad}");
    }
}

#[test]
fn digest_failure_names_the_digest() {
    match validate_digest("sha256:") {
        Err(RustmoteError::InvalidImageRef(p)) => assert_eq!(p, "digest=sha256:"),
        other => panic!("unexpected {other:?}"),
    }
}

#[test]
fn backup_suffix_boundaries() {
    assert_eq!(
        validate_backup_suffix("2026-04-18T12-34-56Z").unwrap(),
        "2026-04-18T12-34-56Z"
    );
    assert!(validate_backup_suffix("").is_err());
    assert!(validate_backup_suffix(&"a".repeat(64)).is_ok());
    assert!(validate_backup_suffix(&"a".repeat(65)).is_err());
    match validate_backup_suffix("a:b") {
        Err(RustmoteError::InvalidRelayPath(p)) => assert_eq!(p, "backup-suffix=a:b"),
        other => panic!("unexpected {other:?}"),
    }
}

#[test]
fn write_file_emits_base64_and_moves_in_place() {
    let cmd = write_file("/opt/rustmote-relay/docker-compose.yml", b"hello\n").unwrap();
    assert!(cmd.contains("| base64 -d >"));
    assert!(cmd.contains("/opt/rustmote-relay/docker-compose.yml.rustmote-tmp"));
    assert!(cmd.contains("mv /opt/rustmote-relay/docker-compose.yml.rustmote-tmp"));
    assert!(cmd.contains("chmod 0644 /opt/rustmote-relay/docker-compose.yml"));
    // "hello\n" base64 is "aGVsbG8K"
    assert!(cmd.contains("aGVsbG8K"));
}

#[test]
fn write_file_is_exact() {
    assert_eq!(
        write_file("/a", b"").unwrap(),
        "printf %s  | base64 -d > /a.rustmote-tmp && mv /a.rustmote-tmp /a && chmod 0644 /a"
    );
    for (content, encoded) in [
        (&b"f"[..], "Zg=="),
        (&b"fo"[..], "Zm8="),
        (&b"foo"[..], "Zm9v"),
        (&b"\xff\xfe\xfd\x00"[..], "//79AA=="),
        (&b"\xfb\xef\xbe"[..], "++++"),
    ] {
        let cmd = write_file("/a", content).unwrap();
        assert!(
            cmd.starts_with(&format!("printf %s {encoded} | base64 -d > ")),
            "{cmd}"
        );
    }
    assert!(write_file("a", b"x").is_err());
}

#[test]
fn base64_decodes_to_the_content() {
    let content: Vec<u8> = (0u16..=255).map(|b| b as u8).collect();
    for n in 0..content.len() {
        let cmd = write_file("/a", &content[..n]).unwrap();
        let rest = cmd.strip_prefix("printf %s ").unwrap();
        let (encoded, _) = rest.split_once(" | ").unwrap();
        let decoded = base64::engine::general_purpose::STANDARD
            .decode(encoded)
            .unwrap();
        assert_eq!(decoded, &content[..n]);
    }
}

#[test]
fn compose_up_and_pull_cd_into_validated_path() {
    let p = "/opt/rustmote-relay";
    assert_eq!(
        compose_up(p).unwrap(),
        "cd /opt/rustmote-relay && docker compose up -d"
    );
    assert_eq!(
        compose_pull(p).unwrap(),
        "cd /opt/rustmote-relay && docker compose pull"
    );
}

#[test]
fn every_command_is_exact() {
    assert_eq!(read_os_release(), "cat /etc/os-release");
    assert_eq!(check_docker_present(), "command -v docker");
    assert_eq!(check_docker_compose_v2(), "docker compose version");
    assert_eq!(check_docker_compose_v1(), "docker-compose --version");
    assert_eq!(test_dir_exists("/p").unwrap(), "test -d /p");
    assert_eq!(test_file_exists("/p").unwrap(), "test -f /p");
    assert_eq!(mkdir_p("/p").unwrap(), "mkdir -p /p");
    assert_eq!(cat_file("/p").unwrap(), "cat /p");
    assert_eq!(remove_tree("/p").unwrap(), "rm -rf /p");
    assert_eq!(copy_file("/p", "/q").unwrap(), "cp -a /p /q");
    assert_eq!(compose_config("/p").unwrap(), "cd /p && docker compose config");
    assert_eq!(
        compose_ps_json("/p").unwrap(),
        "cd /p && docker compose ps --format json"
    );
    assert_eq!(
        compose_logs_tail("/p").unwrap(),
        "cd /p && docker compose logs --no-color --tail 200"
    );
    assert_eq!(
        list_backups("/p").unwrap(),
        "find /p -mindepth 1 -maxdepth 1 -type d -name 'pre-update-*' -printf '%T@\\t%p\\n'"
    );
}

#[test]
fn invalid_paths_reach_no_command() {
    for r in [
        test_dir_exists("/a b"),
        test_file_exists("/a b"),
        mkdir_p("/a b"),
        cat_file("/a b"),
        remove_tree("/a b"),
        compose_up("/a b"),
        compose_pull("/a b"),
        compose_config("/a b"),
        compose_ps_json("/a b"),
        compose_logs_tail("/a b"),
        list_backups("/a b"),
        copy_file("/a b", "/q"),
        copy_file("/q", "/a b"),
    ] {
        assert_eq!(r, Err(RustmoteError::InvalidRelayPath("/a b".to_string())));
    }
}

#[test]
fn tcp_probe_uses_bash_dev_tcp_with_port() {
    assert_eq!(
        tcp_probe(21116),
        "bash -c 'exec 3<>/dev/tcp/127.0.0.1/21116' 2>/dev/null"
    );
}

#[test]
fn pinned_image_ref_round_trips() {
    let r = pinned_image_ref("rustdesk/rustdesk-server", "1.1.11", DIGEST).unwrap();
    assert_eq!(
        r,
        "rustdesk/rustdesk-server:1.1.11@sha256:0123456789abcdef0123456789abcdef0123456789abcdef0123456789abcdef"
    );
}

#[test]
fn pinned_image_ref_names_the_first_malformed_part() {
    assert_eq!(
        pinned_image_ref("A", "-", "x"),
        Err(RustmoteError::InvalidImageRef("repo=A".to_string()))
    );
    assert_eq!(
        pinned_image_ref("a", "-", "x"),
        Err(RustmoteError::InvalidImageRef("tag=-".to_string()))
    );
    assert_eq!(
        pinned_image_ref("a", "b", "x"),
        Err(RustmoteError::InvalidImageRef("digest=x".to_string()))
    );
}

#[test]
fn backup_dir_replaces_colons_with_dashes() {
    let t = chrono::DateTime::parse_from_rfc3339("2026-04-18T12:34:56Z").unwrap();
    let at = Timestamp::new(t.timestamp(), 0).unwrap();
    assert_eq!(
        backup_dir_for("/opt/rustmote-relay", at),
        "/opt/rustmote-relay/backups/pre-update-2026-04-18T12-34-56Z"
    );
}

#[test]
fn paths_below_an_install_path() {
    let p = "/opt/rustmote-relay";
    assert_eq!(compose_path(p), "/opt/rustmote-relay/docker-compose.yml");
    assert_eq!(env_path(p), "/opt/rustmote-relay/.env");
    assert_eq!(state_path(p), "/opt/rustmote-relay/.rustmote-state.toml");
    assert_eq!(data_path(p), "/opt/rustmote-relay/data");
    assert_eq!(key_path(p), "/opt/rustmote-relay/data/id_ed25519.pub");
    assert_eq!(backups_path(p), "/opt/rustmote-relay/backups");
    assert_eq!(backups_path("/r/"), "/r/backups");
    assert_eq!(backup_dir_named("/r", "X"), "/r/backups/pre-update-X");
    for path in [compose_path(p), env_path(p), state_path(p), key_path(p)] {
        assert!(validate_remote_path(&path).is_ok());
    }
}

#[test]
fn backup_of_a_far_year_is_no_valid_path() {
    let at = Timestamp::new(253_402_300_800, 0).unwrap();
    let dir = backup_dir_for("/r", at);
    assert_eq!(dir, "/r/backups/pre-update-+10000-01-01T00-00-00Z");
    assert!(mkdir_p(&dir).is_err());
}
