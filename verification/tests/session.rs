use rustmote::error::RustmoteError;
use rustmote::path::PathStyle;
use rustmote::session::channel::ChannelEvent;
use rustmote::session::known_hosts::{
    known_hosts_path, HostKey, KnownHosts, TofuOutcome, TofuPolicy,
};
use rustmote::session::login::{
    default_key_paths, Attempt, AuthMaterial, Login, LoginStep,
};
use rustmote::session::ExecOutput;
use rustmote::time::Timestamp;

fn fake_key(fp: &str) -> HostKey {
    HostKey {
        fingerprint: format!("SHA256:{fp}"),
        key_type: "ssh-ed25519".to_string(),
        first_seen: Timestamp::now(),
    }
}

#[test]
fn exec_output_stderr_and_stdout_decode() {
    let o = ExecOutput {
        stdout: b"hello\n".to_vec(),
        stderr: b"err\n".to_vec(),
        exit_code: 0,
    };
    assert_eq!(o.stdout_string(), "hello\n");
    assert_eq!(o.stderr_string(), "err\n");
}

#[test]
fn exec_output_replaces_invalid_utf8() {
    let o = ExecOutput {
        stdout: b"a\xffb".to_vec(),
        stderr: "gr\u{fc}n".as_bytes().to_vec(),
        exit_code: 0,
    };
    assert_eq!(o.stdout_string(), "a\u{fffd}b");
    assert_eq!(o.stderr_string(), "gr\u{fc}n");
}

#[test]
fn exec_output_ok_for_zero_passes() {
    let o = ExecOutput {
        stdout: vec![],
        stderr: vec![],
        exit_code: 0,
    };
    o.ok_for("true").unwrap();
}

#[test]
fn exec_output_ok_for_nonzero_errors() {
    let o = ExecOutput {
        stdout: vec![],
        stderr: b"boom".to_vec(),
        exit_code: 2,
    };
    match o.ok_for("false").unwrap_err() {
        RustmoteError::RemoteCommandFailed {
            command,
            exit_code,
            stderr,
        } => {
            assert_eq!(command, "false");
            assert_eq!(exit_code, 2);
            assert_eq!(stderr, "boom");
        }
        other => panic!("unexpected: {other:?}"),
    }
}

#[test]
fn ok_for_propagates_nonzero_exit_as_error() {
    let out = ExecOutput {
        stdout: vec![],
        stderr: b"ls: cannot access '/nope': No such file or directory\n".to_vec(),
        exit_code: 2,
    };
    match out.ok_for("ls /nope").unwrap_err() {
        RustmoteError::RemoteCommandFailed {
            command,
            exit_code,
            stderr,
        } => {
            assert_eq!(command, "ls /nope");
            assert_eq!(exit_code, 2);
            assert!(stderr.contains("No such file or directory"));
        }
        other => panic!("unexpected error: {other:?}"),
    }
}

#[test]
fn ok_for_passes_zero_exit() {
    let out = ExecOutput {
        stdout: b"x".to_vec(),
        stderr: b"y".to_vec(),
        exit_code: 0,
    };
    assert_eq!(out.clone().ok_for("true").unwrap(), out);
}

#[test]
fn channel_messages_are_gathered_until_the_end() {
    let mut out = ExecOutput::empty();
    for event in [
        ChannelEvent::Stdout(b"ab".to_vec()),
        ChannelEvent::Stderr(b"e".to_vec()),
        ChannelEvent::Other,
        ChannelEvent::Stdout(b"c".to_vec()),
        ChannelEvent::ExitStatus(3),
    ] {
        assert!(out.take_in(&event));
    }
    assert!(!out.take_in(&ChannelEvent::End));
    assert_eq!(
        out,
        ExecOutput {
            stdout: b"abc".to_vec(),
            stderr: b"e".to_vec(),
            exit_code: 3
        }
    );
}

#[test]
fn endpoint_formats_host_and_port() {
    assert_eq!(
        KnownHosts::endpoint("zima-brain.local", 22),
        "zima-brain.local:22"
    );
}

#[test]
fn first_use_pins_on_trust_policy() {
    let mut kh = KnownHosts::default();
    let outcome = kh.verify_or_pin("zima", 22, &fake_key("abc"), TofuPolicy::TrustOnFirstUse);
    assert_eq!(outcome, TofuOutcome::Pinned);
    assert!(kh.get("zima", 22).is_some());
}

#[test]
fn first_use_rejects_on_strict_policy() {
    let mut kh = KnownHosts::default();
    let outcome = kh.verify_or_pin("zima", 22, &fake_key("abc"), TofuPolicy::Strict);
    assert_eq!(outcome, TofuOutcome::UnknownRejected);
    assert!(kh.get("zima", 22).is_none());
}

#[test]
fn matching_fingerprint_accepts() {
    let mut kh = KnownHosts::default();
    let observed = fake_key("abc");
    assert_eq!(
        kh.verify_or_pin("zima", 22, &observed, TofuPolicy::TrustOnFirstUse),
        TofuOutcome::Pinned
    );
    let outcome = kh.verify_or_pin("zima", 22, &observed, TofuPolicy::Strict);
    assert_eq!(outcome, TofuOutcome::Matched);
}

#[test]
fn mismatched_fingerprint_refuses() {
    let mut kh = KnownHosts::default();
    kh.verify_or_pin("zima", 22, &fake_key("abc"), TofuPolicy::TrustOnFirstUse);

    let outcome = kh.verify_or_pin(
        "zima",
        22,
        &fake_key("deadbeef"),
        TofuPolicy::TrustOnFirstUse,
    );
    match outcome {
        TofuOutcome::Mismatch {
            expected,
            actual_fingerprint,
        } => {
            assert_eq!(expected.fingerprint, "SHA256:abc");
            assert_eq!(actual_fingerprint, "SHA256:deadbeef");
        }
        other => panic!("expected Mismatch, got {other:?}"),
    }
}

#[test]
fn server_keys_are_judged() {
    let mut kh = KnownHosts::default();
    let now = Timestamp::now();
    let trust = TofuPolicy::TrustOnFirstUse;
    let (found, verdict) = kh.check_server_key("h", 22, "abc", "ssh-rsa", now, TofuPolicy::Strict);
    assert_eq!(found, TofuOutcome::UnknownRejected);
    assert_eq!(
        verdict,
        Err(RustmoteError::HostKeyUnknown {
            host: "h".to_string(),
            port: 22
        })
    );
    let (found, verdict) = kh.check_server_key("h", 22, "abc", "ssh-rsa", now, trust);
    assert_eq!(found, TofuOutcome::Pinned);
    assert_eq!(verdict, Ok(()));
    assert_eq!(kh.get("h", 22).unwrap().fingerprint, "SHA256:abc");
    assert_eq!(kh.get("h", 22).unwrap().key_type, "ssh-rsa");
    let (_, verdict) = kh.check_server_key("h", 22, "xyz", "ssh-rsa", now, trust);
    assert_eq!(
        verdict,
        Err(RustmoteError::HostKeyMismatch {
            host: "h".to_string(),
            port: 22,
            expected: "SHA256:abc".to_string(),
            actual: "SHA256:xyz".to_string()
        })
    );
    // Another port is another endpoint.
    assert!(kh.get("h", 2222).is_none());
    assert_eq!(TofuPolicy::default(), trust);
}

#[test]
fn known_hosts_file_is_in_the_config_directory() {
    assert_eq!(
        known_hosts_path(PathStyle::Unix, Ok("/c".to_string())),
        Ok("/c/known_hosts.toml".to_string())
    );
    let kh = KnownHosts::default();
    assert!(kh.entries.is_empty());
}

#[test]
fn default_key_paths_respects_extras_first() {
    let extra = "/tmp/my-key".to_string();
    let paths = default_key_paths(PathStyle::Unix, &vec![extra.clone()], Some("/home/c"));
    assert_eq!(paths.first(), Some(&extra));
}

#[test]
fn default_key_paths_appends_standard_locations() {
    let paths = default_key_paths(PathStyle::Unix, &vec![], Some("/home/c"));
    assert!(paths.iter().any(|p| p.ends_with("id_ed25519")));
    assert!(paths.iter().any(|p| p.ends_with("id_rsa")));
    assert_eq!(paths, ["/home/c/.ssh/id_ed25519", "/home/c/.ssh/id_rsa"]);
    assert!(default_key_paths(PathStyle::Unix, &vec![], None).is_empty());
}

fn auth(password: Option<&str>) -> AuthMaterial {
    AuthMaterial {
        extra_key_paths: vec!["/k".to_string()],
        key_passphrase: None,
        password: password.map(|p| p.to_string()),
    }
}

#[test]
fn login_tries_keys_then_the_password() {
    let (mut login, step) = Login::begin(
        PathStyle::Unix,
        "u",
        "h",
        &auth(Some("pw")),
        Some("/home/u"),
    );
    assert_eq!(step, LoginStep::TryKey("/k".to_string()));
    let step = login.step(Attempt::Rejected);
    assert_eq!(step, LoginStep::TryKey("/home/u/.ssh/id_ed25519".to_string()));
    assert_eq!(login.last_error, "server rejected key /k");
    let step = login.step(Attempt::NotLoaded("encrypted".to_string()));
    assert_eq!(step, LoginStep::TryKey("/home/u/.ssh/id_rsa".to_string()));
    assert_eq!(
        login.last_error,
        "could not load /home/u/.ssh/id_ed25519: encrypted"
    );
    let step = login.step(Attempt::Missing);
    assert_eq!(step, LoginStep::TryPassword("pw".to_string()));
    let step = login.step(Attempt::Rejected);
    assert_eq!(
        step,
        LoginStep::Failed(RustmoteError::SshAuthFailed {
            user: "u".to_string(),
            host: "h".to_string(),
            methods: "publickey,publickey,password".to_string(),
            last_error: "server rejected password".to_string()
        })
    );
}

#[test]
fn login_ends_with_the_first_accepted_attempt() {
    let (mut login, _) = Login::begin(PathStyle::Unix, "u", "h", &auth(None), None);
    assert_eq!(login.step(Attempt::Accepted), LoginStep::LoggedIn);
}

#[test]
fn login_without_means_says_so() {
    let (mut login, _) = Login::begin(PathStyle::Unix, "u", "h", &auth(None), None);
    let step = login.step(Attempt::Missing);
    assert_eq!(
        step,
        LoginStep::Failed(RustmoteError::SshAuthFailed {
            user: "u".to_string(),
            host: "h".to_string(),
            methods: "(none — no key found, no password supplied)".to_string(),
            last_error: String::new()
        })
    );
    let (_, step) = Login::begin(PathStyle::Unix, "u", "h", &AuthMaterial::default(), None);
    assert!(matches!(step, LoginStep::Failed(_)));
}

#[test]
fn login_reports_transport_errors() {
    let (mut login, _) = Login::begin(PathStyle::Unix, "u", "h", &auth(Some("pw")), None);
    login.step(Attempt::Failed("eof".to_string()));
    assert_eq!(login.last_error, "publickey auth error with /k: eof");
    login.step(Attempt::Failed("eof".to_string()));
    assert_eq!(login.last_error, "password auth error: eof");
}

#[test]
fn paths_on_windows_have_backslashes() {
    assert_eq!(
        known_hosts_path(PathStyle::Windows, Ok(r"C:\cfg".to_string())),
        Ok(r"C:\cfg\known_hosts.toml".to_string())
    );
    assert_eq!(
        default_key_paths(PathStyle::Windows, &vec![], Some(r"C:\Users\c")),
        [
            r"C:\Users\c\.ssh\id_ed25519",
            r"C:\Users\c\.ssh\id_rsa"
        ]
    );
}
