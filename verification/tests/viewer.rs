use rustmote::error::RustmoteError;
use rustmote::viewer::{
    flatpak_inquiry, which_on_path, Platform, TargetId, Viewer, ViewerKind, ViewerSearch,
};

fn strings(items: &[&str]) -> Vec<String> {
    items.iter().map(|s| s.to_string()).collect()
}

fn linux(files: &[&str], flatpak: bool) -> ViewerSearch {
    ViewerSearch {
        platform: Platform::Linux,
        path_dirs: strings(&["/bin", "/usr/local/bin/"]),
        program_dirs: vec![],
        files: strings(files),
        flatpak,
    }
}

fn native(path: &str) -> Viewer {
    Viewer {
        kind: ViewerKind::Native(path.to_string()),
    }
}

#[test]
fn target_id_accepts_nine_digits() {
    let id = TargetId::new("123456789").unwrap();
    assert_eq!(id.as_str(), "123456789");
}

#[test]
fn target_id_accepts_ten_digits() {
    TargetId::new("1234567890").unwrap();
}

#[test]
fn target_id_rejects_eight_digits() {
    assert!(matches!(
        TargetId::new("12345678"),
        Err(RustmoteError::InvalidTargetId(_))
    ));
}

#[test]
fn target_id_rejects_eleven_digits() {
    assert!(matches!(
        TargetId::new("12345678901"),
        Err(RustmoteError::InvalidTargetId(_))
    ));
}

#[test]
fn target_id_rejects_empty() {
    assert!(matches!(
        TargetId::new(""),
        Err(RustmoteError::InvalidTargetId(_))
    ));
}

#[test]
fn target_id_rejects_non_digits() {
    for bad in [
        "12345678a",
        "12345678 ",
        "1234-56789",
        "123;456789",
        "\u{1F60A}",
    ] {
        assert!(
            matches!(TargetId::new(bad), Err(RustmoteError::InvalidTargetId(_))),
            "should reject {bad:?}"
        );
    }
}

#[test]
fn command_builds_for_native_viewer() {
    let viewer = native("/opt/rustdesk/rustdesk");
    let id = TargetId::new("123456789").unwrap();
    let cmd = viewer.command(&id);
    assert_eq!(cmd.program, "/opt/rustdesk/rustdesk");
    assert_eq!(cmd.args, ["--connect", "123456789"]);
}

#[test]
fn command_builds_for_flatpak_viewer() {
    let viewer = Viewer {
        kind: ViewerKind::Flatpak,
    };
    let id = TargetId::new("9876543210").unwrap();
    let cmd = viewer.command(&id);
    assert_eq!(cmd.program, "flatpak");
    assert_eq!(
        cmd.args,
        ["run", "com.rustdesk.RustDesk", "--connect", "9876543210"]
    );
}

#[test]
fn override_missing_file_falls_through() {
    let missing = "/tmp/rustmote-viewer-does-not-exist-9f8e7d6c5b4a";
    for search in [linux(&[], false), linux(&["/usr/bin/rustdesk"], true)] {
        let result = Viewer::detect_with_override(Some(missing), &search);
        if let Ok(v) = result {
            assert_ne!(v.kind, ViewerKind::Native(missing.to_string()));
        }
    }
}

#[test]
fn viewer_search_order_on_linux() {
    let all = linux(
        &["/x/rd", "/usr/local/bin/rustdesk", "/usr/bin/rustdesk", "/opt/rustdesk/rustdesk"],
        true,
    );
    assert_eq!(
        Viewer::detect_with_override(Some("/x/rd"), &all),
        Ok(native("/x/rd"))
    );
    assert_eq!(Viewer::detect(&all), Ok(native("/usr/local/bin/rustdesk")));
    assert_eq!(
        Viewer::detect(&linux(&["/opt/rustdesk/rustdesk", "/usr/bin/rustdesk"], true)),
        Ok(native("/usr/bin/rustdesk"))
    );
    assert_eq!(
        Viewer::detect(&linux(&["/opt/rustdesk/rustdesk"], true)),
        Ok(native("/opt/rustdesk/rustdesk"))
    );
    let flatpak = Viewer::detect(&linux(&[], true)).unwrap();
    assert_eq!(flatpak.kind(), &ViewerKind::Flatpak);
    assert_eq!(
        Viewer::detect(&linux(&[], false)),
        Err(RustmoteError::ViewerNotFound)
    );
}

#[test]
fn viewer_candidates_of_other_platforms() {
    let mut search = linux(&[], true);
    search.platform = Platform::Windows;
    search.program_dirs = strings(&["C:\\Program Files", "D:\\", "E:"]);
    assert_eq!(
        search.default_candidates(),
        [
            "C:\\Program Files\\RustDesk\\rustdesk.exe",
            "D:\\RustDesk\\rustdesk.exe",
            "E:RustDesk\\rustdesk.exe"
        ]
    );
    assert_eq!(Viewer::detect(&search), Err(RustmoteError::ViewerNotFound));
    search.platform = Platform::MacOs;
    assert_eq!(
        search.default_candidates(),
        ["/Applications/RustDesk.app/Contents/MacOS/rustdesk"]
    );
    search.platform = Platform::Other;
    assert!(search.default_candidates().is_empty());
}

#[test]
fn programs_are_found_on_the_path() {
    let dirs = strings(&["/a", "/b"]);
    assert_eq!(
        which_on_path("x", &dirs, &strings(&["/b/x", "/c/x"])).as_deref(),
        Some("/b/x")
    );
    assert_eq!(which_on_path("x", &dirs, &strings(&["/c/x"])), None);
}

#[test]
fn flatpak_is_asked_only_where_no_file_is_the_viewer() {
    assert!(linux(&[], false).asks_flatpak(None));
    assert!(linux(&[], true).asks_flatpak(Some("/my/viewer")));
    assert!(!linux(&["/my/viewer"], false).asks_flatpak(Some("/my/viewer")));
    assert!(!linux(&["/usr/bin/rustdesk"], false).asks_flatpak(None));
    let mac = ViewerSearch {
        platform: Platform::MacOs,
        ..linux(&[], false)
    };
    assert!(!mac.asks_flatpak(None));
}

#[test]
fn flatpak_is_asked_for_the_application() {
    let dirs = strings(&["/a", "/b"]);
    assert!(flatpak_inquiry(&dirs, &strings(&["/a/rustdesk"])).is_none());
    let command = flatpak_inquiry(&dirs, &strings(&["/b/flatpak"])).unwrap();
    assert_eq!(command.program, "/b/flatpak");
    assert_eq!(command.args, ["info", "com.rustdesk.RustDesk"]);
}

#[test]
fn a_search_looks_at_its_places() {
    let search = ViewerSearch {
        path_dirs: strings(&["/a", "/b"]),
        ..linux(&[], false)
    };
    assert_eq!(
        search.places(Some("/my/viewer")),
        [
            "/my/viewer",
            "/a/rustdesk",
            "/b/rustdesk",
            "/usr/bin/rustdesk",
            "/opt/rustdesk/rustdesk",
        ]
    );
    let mac = ViewerSearch {
        platform: Platform::MacOs,
        ..search
    };
    assert_eq!(
        mac.places(None),
        ["/Applications/RustDesk.app/Contents/MacOS/rustdesk"]
    );
}
