use rustmote::error::RustmoteError;
use rustmote::json::{parse_json, Json};
use rustmote::relay_lifecycle::backups::{
    expired_backups, parse_backup_listing, sort_newest_first, BackupEntry,
};
use rustmote::relay_lifecycle::check::{CheckUpdatesReport, ImageUpdate};
use rustmote::relay_lifecycle::compose::{
    parse_dotted_numeric, pick_latest_semver, render_compose_with_pins, repin_compose,
};
use rustmote::relay_lifecycle::containers::{container_rows, parse_compose_ps_json};
use rustmote::relay_lifecycle::os_release::{os_kind_of, parse_os_release, OsKind};
use rustmote::relay_lifecycle::state::{ImagePin, RelayState};
use rustmote::time::Timestamp;

const DIGEST: &str = "sha256:0123456789abcdef0123456789abcdef0123456789abcdef0123456789abcdef";
const OTHER: &str = "sha256:fedcba9876543210fedcba9876543210fedcba9876543210fedcba9876543210";

fn ts() -> Timestamp {
    let t = chrono::DateTime::parse_from_rfc3339("2026-04-18T12:34:56Z").unwrap();
    Timestamp::new(t.timestamp(), 0).unwrap()
}

fn pin(service: &str, repo: &str, tag: &str, digest: &str) -> ImagePin {
    ImagePin {
        service: service.to_string(),
        repo: repo.to_string(),
        tag: tag.to_string(),
        digest: digest.to_string(),
        pinned_at: ts(),
    }
}

fn strings(items: &[&str]) -> Vec<String> {
    items.iter().map(|s| s.to_string()).collect()
}

#[test]
fn parse_os_release_recognizes_debian_ubuntu_arch() {
    assert_eq!(
        parse_os_release("NAME=\"Debian GNU/Linux\"\nID=debian\n"),
        Some(OsKind::Debian)
    );
    assert_eq!(
        parse_os_release("NAME=Ubuntu\nID=ubuntu\nID_LIKE=debian\n"),
        Some(OsKind::Ubuntu)
    );
    assert_eq!(
        parse_os_release("NAME=\"Arch Linux\"\nID=arch\n"),
        Some(OsKind::Arch)
    );
}

#[test]
fn parse_os_release_falls_back_to_id_like_for_derivatives() {
    assert_eq!(
        parse_os_release("NAME=Raspbian\nID=raspbian\nID_LIKE=\"debian\"\n"),
        Some(OsKind::Debian)
    );
}

#[test]
fn parse_os_release_returns_none_on_unknown() {
    assert_eq!(parse_os_release("NAME=Plan9\nID=plan9\n"), None);
    assert_eq!(parse_os_release(""), None);
}

#[test]
fn os_release_takes_the_first_id_line() {
    assert_eq!(
        parse_os_release("ID=debian\nID=ubuntu\n"),
        Some(OsKind::Debian)
    );
}

#[test]
fn os_release_is_lenient_about_case_quotes_and_space() {
    assert_eq!(parse_os_release("  ID=\"Debian\"  \r\n"), Some(OsKind::Debian));
    assert_eq!(parse_os_release("ID=ARCHLINUX"), Some(OsKind::Arch));
    assert_eq!(
        parse_os_release("ID=mint\nID_LIKE=\"suse  ubuntu debian\""),
        Some(OsKind::Ubuntu)
    );
    assert_eq!(parse_os_release("ID_LIKE=arch"), Some(OsKind::Arch));
    assert_eq!(parse_os_release("XID=debian"), None);
}

#[test]
fn os_kind_prefers_the_own_identifier() {
    let id = Some("ubuntu".to_string());
    let like = Some("debian".to_string());
    assert_eq!(os_kind_of(&id, &like), Some(OsKind::Ubuntu));
    assert_eq!(os_kind_of(&None, &like), Some(OsKind::Debian));
    assert_eq!(os_kind_of(&None, &None), None);
}

#[test]
fn pick_latest_semver_prefers_numeric_tags_over_latest() {
    let tags = strings(&["1.1.11", "1.1.14", "latest", "master"]);
    assert_eq!(pick_latest_semver(&tags).as_deref(), Some("1.1.14"));
}

#[test]
fn pick_latest_semver_returns_none_when_nothing_numeric() {
    let tags = strings(&["latest", "edge"]);
    assert!(pick_latest_semver(&tags).is_none());
}

#[test]
fn pick_latest_semver_handles_single_component() {
    let tags = vec!["1".to_string(), "2".to_string(), "10".to_string()];
    assert_eq!(pick_latest_semver(&tags).as_deref(), Some("10"));
}

#[test]
fn latest_version_edge_cases() {
    assert_eq!(
        pick_latest_semver(&strings(&["1.1", "1.1.0"])).as_deref(),
        Some("1.1.0")
    );
    assert_eq!(
        pick_latest_semver(&strings(&["1.01", "1.1"])).as_deref(),
        Some("1.01")
    );
    assert_eq!(pick_latest_semver(&strings(&[])), None);
    assert_eq!(parse_dotted_numeric("1.2.3"), Some(vec![1, 2, 3]));
    assert_eq!(parse_dotted_numeric("1..3"), None);
    assert_eq!(parse_dotted_numeric(""), None);
    assert_eq!(parse_dotted_numeric("+1.2"), Some(vec![1, 2]));
    assert_eq!(parse_dotted_numeric("-1"), None);
    assert_eq!(
        parse_dotted_numeric("18446744073709551615"),
        Some(vec![u64::MAX])
    );
    assert_eq!(parse_dotted_numeric("18446744073709551616"), None);
}

#[test]
fn render_compose_pins_both_services() {
    let template = r"services:
  hbbs:
    image: rustdesk/rustdesk-server:1.1.11
  hbbr:
    image: rustdesk/rustdesk-server:1.1.11
";
    let pins = vec![
        pin("hbbs", "rustdesk/rustdesk-server", "1.1.11", DIGEST),
        pin("hbbr", "rustdesk/rustdesk-server", "1.1.11", DIGEST),
    ];
    let rendered = render_compose_with_pins(template, &pins).unwrap();
    assert!(rendered.contains(
        "image: rustdesk/rustdesk-server:1.1.11@sha256:0123456789abcdef0123456789abcdef0123456789abcdef0123456789abcdef"
    ));
    assert!(!rendered.contains("image: rustdesk/rustdesk-server:1.1.11\n"));
    let pinned = format!("image: rustdesk/rustdesk-server:1.1.11@{DIGEST}");
    assert_eq!(
        rendered,
        format!("services:\n  hbbs:\n    {pinned}\n  hbbr:\n    {pinned}\n")
    );
}

#[test]
fn render_fails_on_a_malformed_pin() {
    let pins = vec![pin("hbbs", "a/b", "1", "sha256:zz")];
    assert_eq!(
        render_compose_with_pins("image: a/b:1", &pins),
        Err(RustmoteError::InvalidImageRef("digest=sha256:zz".to_string()))
    );
    assert_eq!(
        render_compose_with_pins("x", &Vec::new()),
        Ok("x".to_string())
    );
}

#[test]
fn repin_puts_new_tags_and_digests() {
    let template = "a:\n  image: r/s:1.1.11\nb:\n  image: r/s:1.1.11\n";
    let pins = vec![
        pin("a", "r/s", "1.1.14", OTHER),
        pin("b", "r/s", "1.1.14", OTHER),
    ];
    assert_eq!(
        repin_compose(template, &pins).unwrap(),
        format!("a:\n  image: r/s:1.1.14@{OTHER}\nb:\n  image: r/s:1.1.14@{OTHER}\n")
    );
    assert!(repin_compose(template, &vec![pin("a", "R", "1", OTHER)]).is_err());
}

#[test]
fn parse_compose_ps_accepts_array_shape() {
    let raw = r#"[
            {"Service":"hbbs","State":"running","Image":"rustdesk/rustdesk-server:1.1.11"},
            {"Service":"hbbr","State":"running","Image":"rustdesk/rustdesk-server:1.1.11"}
        ]"#;
    let rows = parse_compose_ps_json(raw);
    assert_eq!(rows.len(), 2);
    assert_eq!(rows[0].service, "hbbs");
    assert_eq!(rows[0].state, "running");
}

#[test]
fn parse_compose_ps_accepts_ndjson_shape() {
    let raw = format!(
        "{}\n{}",
        r#"{"Service":"hbbs","State":"running","Image":"rustdesk/rustdesk-server:1.1.11"}"#,
        r#"{"Service":"hbbr","State":"exited","Image":"rustdesk/rustdesk-server:1.1.11"}"#,
    );
    let rows = parse_compose_ps_json(&raw);
    assert_eq!(rows.len(), 2);
    assert_eq!(rows[1].state, "exited");
}

#[test]
fn compose_ps_edge_cases() {
    assert!(parse_compose_ps_json("  \n ").is_empty());
    assert!(parse_compose_ps_json("no json").is_empty());
    let rows = parse_compose_ps_json(r#"{"Service":"a"}"#);
    assert_eq!(rows.len(), 1);
    assert_eq!(rows[0].state, "unknown");
    assert_eq!(rows[0].image, None);
    let rows = parse_compose_ps_json(r#"[{"Service":1},{"State":"x"},7,{"Service":"b","Image":3}]"#);
    assert_eq!(rows.len(), 1);
    assert_eq!(rows[0].service, "b");
    assert_eq!(rows[0].image, None);
}

#[test]
fn json_documents_are_read() {
    assert_eq!(parse_json("nul"), None);
    assert_eq!(parse_json("null"), Some(Json::Null));
    assert_eq!(parse_json(" true "), Some(Json::Bool(true)));
    assert_eq!(parse_json("12"), Some(Json::Number("12".to_string())));
    let doc = parse_json(r#"{"k":"v","a":["x"]}"#).unwrap();
    assert_eq!(doc.text_at("k"), Some("v"));
    assert_eq!(doc.text_at("a"), None);
    assert_eq!(doc.text_at("z"), None);
    assert_eq!(Json::Null.text_at("k"), None);
}

#[test]
fn container_rows_take_parsed_documents() {
    let object = || Json::Object(vec![("Service".to_string(), Json::Text("s".to_string()))]);
    let rows = container_rows(&Some(Json::Array(vec![object(), Json::Null])), &Vec::new());
    assert_eq!(rows.len(), 1);
    assert_eq!(rows[0].service, "s");
    let rows = container_rows(&None, &vec![None, Some(object())]);
    assert_eq!(rows.len(), 1);
}

#[test]
fn image_update_detects_digest_drift() {
    let u = ImageUpdate {
        service: "hbbs".to_string(),
        repo: "rustdesk/rustdesk-server".to_string(),
        current_tag: "1.1.11".to_string(),
        current_digest: "sha256:a".to_string(),
        latest_tag: "1.1.14".to_string(),
        latest_digest: "sha256:b".to_string(),
    };
    assert!(u.update_available());

    let same = ImageUpdate {
        latest_digest: u.current_digest.clone(),
        ..u
    };
    assert!(!same.update_available());
    let report = CheckUpdatesReport {
        install_path: "/r".to_string(),
        images: vec![same.clone()],
    };
    assert!(!report.any_update_available());
}

#[test]
fn apply_update_bumps_images_and_stamps_last_updated_at() {
    let mut state = RelayState::new_bootstrap(ts(), "0.1.0", vec![]);
    let later = Timestamp::new(ts().secs() + 3600, 0).unwrap();
    let new = vec![ImagePin {
        service: "hbbs".to_string(),
        repo: "rustdesk/rustdesk-server".to_string(),
        tag: "1.1.14".to_string(),
        digest: "sha256:cccccccccccccccccccccccccccccccccccccccccccccccccccccccccccccccc"
            .to_string(),
        pinned_at: later,
    }];
    state.apply_update(new.clone(), later);
    assert_eq!(state.install.last_updated_at, Some(later));
    assert_eq!(state.images, new);
    assert_eq!(state.install.bootstrapped_at, ts());
}

#[test]
fn pin_for_returns_match_or_none() {
    let state = RelayState::new_bootstrap(
        ts(),
        "0.1.0",
        vec![ImagePin {
            service: "hbbs".to_string(),
            repo: "rustdesk/rustdesk-server".to_string(),
            tag: "1.1.11".to_string(),
            digest: "sha256:aaaaaaaaaaaaaaaaaaaaaaaaaaaaaaaaaaaaaaaaaaaaaaaaaaaaaaaaaaaaaaaa"
                .to_string(),
            pinned_at: ts(),
        }],
    );
    assert!(state.pin_for("hbbs").is_some());
    assert!(state.pin_for("unknown").is_none());
}

#[test]
fn backup_listing_is_read_and_sorted() {
    let raw = "100.5\t/b/one\nbad line\n300\t/b/two\n-5.0\t/b/old\n300.9\t/b/three\nx.1\t/b/no\n";
    let entries = parse_backup_listing(raw);
    assert_eq!(entries.len(), 4);
    assert_eq!(
        entries[2],
        BackupEntry {
            epoch: -5,
            path: "/b/old".to_string()
        }
    );
    let paths: Vec<String> = sort_newest_first(&entries)
        .into_iter()
        .map(|e| e.path)
        .collect();
    assert_eq!(paths, ["/b/two", "/b/three", "/b/one", "/b/old"]);
}

#[test]
fn three_newest_backups_stay() {
    let now = ts();
    let day = 86_400;
    let line = |age: i64, name: &str| format!("{}.0\t/b/{name}\n", now.secs() - age * day);
    let mut raw = String::new();
    for (age, name) in [(30, "a"), (20, "b"), (10, "c"), (9, "d"), (8, "e"), (7, "f")] {
        raw.push_str(&line(age, name));
    }
    // f, e and d are the three newest; of the rest all are older than seven days.
    assert_eq!(expired_backups(&raw, now), ["/b/c", "/b/b", "/b/a"]);
    // Exactly seven days is not older than seven days.
    let raw = format!(
        "{}{}{}{}{}",
        line(1, "a"),
        line(2, "b"),
        line(3, "c"),
        line(7, "d"),
        line(8, "e")
    );
    assert_eq!(expired_backups(&raw, now), ["/b/e"]);
    assert!(expired_backups("", now).is_empty());
}
