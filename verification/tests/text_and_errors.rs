use rustmote::error::RustmoteError;
use rustmote::path::{join_local, join_path, PathStyle};
use rustmote::text::{
    text_decimal, text_join, text_lines, text_lower, text_octal, text_parse_i64, text_parse_u64,
    text_replace, text_split, text_split_once, text_strip_prefix, text_trim, text_trim_char,
    text_trim_end_char, text_words,
};
use rustmote::textmap::TextMap;

/// Texts on which the operations are held against those of std.
const SAMPLES: &[&str] = &[
    "",
    " ",
    "a",
    "a\n",
    "a\r\n",
    "a\r",
    "\n\n",
    "\r\n\r\n",
    " a b\tc ",
    "\u{a0}x\u{2003}y\u{3000}",
    "a.b..c.",
    "::",
    "\"q\"",
    "\"\"",
    "ÄbC",
    "aaa",
    "x=1\ny=2",
];

#[test]
fn lines_split_and_words_agree_with_std() {
    for s in SAMPLES {
        assert_eq!(text_lines(s), s.lines().collect::<Vec<_>>(), "{s:?}");
        assert_eq!(text_words(s), s.split_whitespace().collect::<Vec<_>>(), "{s:?}");
        for c in ['.', ':', 'a', '\n'] {
            assert_eq!(text_split(s, c), s.split(c).collect::<Vec<_>>(), "{s:?}");
            let cut = s.split_once(c).map(|(a, b)| (a.to_string(), b.to_string()));
            assert_eq!(text_split_once(s, c), cut);
        }
    }
}

#[test]
fn trimming_agrees_with_std() {
    for s in SAMPLES {
        assert_eq!(text_trim(s), s.trim(), "{s:?}");
        assert_eq!(text_trim_char(s, '"'), s.trim_matches('"'));
        assert_eq!(text_trim_end_char(s, '.'), s.trim_end_matches('.'));
        assert_eq!(text_lower(s), s.to_ascii_lowercase());
        assert_eq!(
            text_strip_prefix(s, "a"),
            s.strip_prefix('a').map(|r| r.to_string())
        );
    }
}

#[test]
fn whitespace_agrees_with_std() {
    for code in 0..=0x10ffffu32 {
        if let Some(c) = char::from_u32(code) {
            assert_eq!(rustmote::text::char_is_whitespace(c), c.is_whitespace());
        }
    }
}

#[test]
fn replacing_agrees_with_std() {
    for s in SAMPLES {
        for (from, to) in [("a", "bb"), ("aa", "x"), ("..", ""), ("\n", "\n\n")] {
            assert_eq!(text_replace(s, from, to), s.replace(from, to), "{s:?}");
        }
    }
}

#[test]
fn numbers_agree_with_std() {
    for s in [
        "", "+", "-", "0", "-0", "+0", "007", "18446744073709551615", "18446744073709551616",
        "9223372036854775807", "9223372036854775808", "-9223372036854775808",
        "-9223372036854775809", "1a", " 1", "--1", "+-1", "٣",
    ] {
        assert_eq!(text_parse_u64(s), s.parse().ok(), "{s:?}");
        assert_eq!(text_parse_i64(s), s.parse().ok(), "{s:?}");
    }
    for n in [0, 7, 8, 10, 99, 100, 420, u64::MAX] {
        assert_eq!(text_decimal(n), n.to_string());
        assert_eq!(text_octal(n), format!("{n:o}"));
    }
}

#[test]
fn joining_agrees_with_std() {
    for n in 0..4usize {
        let parts: Vec<String> = (0..n).map(|i| i.to_string()).collect();
        assert_eq!(text_join(&parts, ", "), parts.join(", "));
    }
    assert_eq!(join_path("", "a"), "a");
    assert_eq!(join_path("/", "a"), "/a");
    assert_eq!(join_path("/x", "a"), "/x/a");
}

#[test]
fn maps_keep_the_last_value_of_a_key() {
    let mut m: TextMap<String> = TextMap::new();
    assert!(m.is_empty());
    m.insert("a".to_string(), "1".to_string());
    m.insert("b".to_string(), "2".to_string());
    m.insert("a".to_string(), "3".to_string());
    assert_eq!(m.len(), 2);
    assert_eq!(m.get("a").map(String::as_str), Some("3"));
    assert_eq!(m.remove("a").as_deref(), Some("3"));
    assert_eq!(m.get("a"), None);
    assert_eq!(m.get("b").map(String::as_str), Some("2"));
    assert_eq!(m.remove("z"), None);
    assert_eq!(m.len(), 1);
}

fn s(text: &str) -> String {
    text.to_string()
}

#[test]
fn every_failure_has_its_message() {
    let cases: Vec<(RustmoteError, &str)> = vec![
        (RustmoteError::ConfigNotFound(s("/c")), "config file not found at /c"),
        (RustmoteError::UnknownServer(s("a")), "server 'a' not in registry"),
        (RustmoteError::ServerAlreadyExists(s("a")), "server 'a' is already registered"),
        (RustmoteError::UnknownTarget(s("a")), "target 'a' not in registry"),
        (RustmoteError::TargetAlreadyExists(s("a")), "target 'a' is already registered"),
        (RustmoteError::NoConfigDir, "could not resolve a config directory for the current platform"),
        (
            RustmoteError::ConfigParse { path: s("/c"), source: s("bad") },
            "failed to parse config file /c: bad",
        ),
        (RustmoteError::ConfigSerialize(s("x")), "failed to serialize config: x"),
        (RustmoteError::SshConnection(s("x")), "ssh connection failed: x"),
        (
            RustmoteError::HostKeyMismatch { host: s("h"), port: 22, expected: s("A"), actual: s("B") },
            "host key mismatch for h:22 — pinned A, observed B; refusing to connect (spec §6.7). Remove the stale entry from known_hosts.toml only after verifying the new key out-of-band.",
        ),
        (
            RustmoteError::HostKeyUnknown { host: s("h"), port: 22 },
            "host key for h:22 is not pinned and strict TOFU policy refuses first-use",
        ),
        (
            RustmoteError::SshAuthFailed { user: s("u"), host: s("h"), methods: s("m"), last_error: s("e") },
            "ssh authentication failed for u@h; tried m (last error: e)",
        ),
        (RustmoteError::NoSshKeyFound(s("x")), "no SSH private key found at any of: x"),
        (
            RustmoteError::RemoteCommandFailed { command: s("c"), exit_code: 2, stderr: s("e") },
            "remote command 'c' exited with status 2: e",
        ),
        (RustmoteError::Credential(s("x")), "credential access failed: x"),
        (RustmoteError::ViewerNotFound, "viewer binary not found; install RustDesk or set viewer_path"),
        (
            RustmoteError::InvalidTargetId(s("x")),
            "invalid RustDesk target id 'x'; expected 9 or 10 ASCII digits (spec §3.5)",
        ),
        (
            RustmoteError::InvalidServerName(s("x")),
            "invalid server name 'x'; expected 1-64 chars matching [a-zA-Z0-9_-] (spec §6.4)",
        ),
        (
            RustmoteError::DiscoveryNoInterface,
            "no non-loopback IPv4 interface with a CIDR prefix found for discovery auto-detect",
        ),
        (RustmoteError::UnsafeModeNotAcknowledged, "unsafe mode requires explicit acknowledgment flag"),
        (
            RustmoteError::InsecureCredentialsFile(0o644),
            "credentials file has insecure permissions: 644 (expected 600)",
        ),
        (
            RustmoteError::UnsafeModeUnsupportedOnPlatform,
            "unsafe credential mode is not supported on this platform yet; use `keychain` mode instead",
        ),
        (
            RustmoteError::NoStoredCredential { server: s("s"), user: s("u") },
            "no stored credential for u@s",
        ),
        (RustmoteError::RegistryApi(s("x")), "docker hub api error: x"),
        (
            RustmoteError::RelayNotInstalled(s("x")),
            "relay not installed on server 'x'; run `rustmote relay bootstrap` first",
        ),
        (
            RustmoteError::RelayAlreadyInstalled(s("/r")),
            "relay already installed at /r; remove it or use a different path",
        ),
        (
            RustmoteError::RelayHealthCheckFailed,
            "relay health check failed after update; rolled back to previous version",
        ),
        (
            RustmoteError::DockerComposeV1Detected,
            "docker compose v1 detected; rustmote requires v2 (the `docker compose` plugin)",
        ),
        (
            RustmoteError::DockerEngineNotInstalled,
            "docker engine not installed on the remote; re-run with --install-docker to let rustmote run the official install script (spec §6.11)",
        ),
        (
            RustmoteError::RelayUnsupportedOs(s("x")),
            "unsupported relay OS: x. Rustmote can bootstrap Debian, Ubuntu, and Arch automatically; install docker manually and re-run on anything else",
        ),
        (
            RustmoteError::RelayForeignInstall(s("/r")),
            "relay install path /r exists but is not a rustmote install (no .rustmote-state.toml); refusing to overwrite (spec §6.12)",
        ),
        (
            RustmoteError::RelayUpdateNotConfirmed,
            "refusing to run relay update in non-interactive mode without --yes (spec §5.1.3 step 4)",
        ),
        (RustmoteError::InvalidRelayPath(s("x")), "invalid relay remote path or argument: 'x'"),
        (RustmoteError::InvalidImageRef(s("x")), "invalid docker image reference: 'x'"),
        (RustmoteError::Io(s("x")), "x"),
    ];
    for (e, text) in cases {
        assert_eq!(e.message(), text);
    }
}

#[test]
fn local_paths_are_joined_as_the_system_does() {
    let windows = |base: &str| join_local(PathStyle::Windows, base, "a");
    assert_eq!(windows(""), "a");
    assert_eq!(windows("C:"), "C:a");
    assert_eq!(windows("c:"), "c:a");
    assert_eq!(windows(r"C:\"), r"C:\a");
    assert_eq!(windows("C:/x/"), "C:/x/a");
    assert_eq!(windows(r"C:\x"), r"C:\x\a");
    assert_eq!(windows("1:"), r"1:\a");
    assert_eq!(windows(r"\\host\share"), r"\\host\share\a");
    let unix = |base: &str| join_local(PathStyle::Unix, base, "a");
    assert_eq!(unix(""), "a");
    assert_eq!(unix("/x"), "/x/a");
    assert_eq!(unix("/x/"), "/x/a");
    assert_eq!(unix(r"C:\"), r"C:\/a");
}
