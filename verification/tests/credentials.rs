use std::collections::HashMap;
use std::str::FromStr;
use std::sync::{Arc, Mutex};

use rustmote::config::Config;
use rustmote::credentials::{
    check_unsafe_permissions, deleted_from_keyring, keyring_account, password_from_keyring,
    split_account_server, split_account_user, CredentialMode, CredentialStore, FileMode,
    KeyringBackend, KeyringReply, PasswordChange, PasswordRequest, UnsafeFile, KEYRING_SERVICE,
};
use rustmote::error::RustmoteError;

struct MockKeyring {
    inner: Mutex<HashMap<(String, String), String>>,
}

impl MockKeyring {
    fn empty() -> MockKeyring {
        MockKeyring {
            inner: Mutex::new(HashMap::new()),
        }
    }
}

impl KeyringBackend for MockKeyring {
    fn get(&self, service: &str, account: &str) -> Result<String, RustmoteError> {
        let guard = self.inner.lock().unwrap();
        let reply = match guard.get(&(service.to_owned(), account.to_owned())) {
            Some(p) => KeyringReply::Value(p.clone()),
            None => KeyringReply::NoEntry,
        };
        password_from_keyring(account, reply)
    }

    fn set(&self, service: &str, account: &str, password: &str) -> Result<(), RustmoteError> {
        let mut guard = self.inner.lock().unwrap();
        guard.insert((service.to_owned(), account.to_owned()), password.to_owned());
        Ok(())
    }

    fn delete(&self, service: &str, account: &str) -> Result<(), RustmoteError> {
        let mut guard = self.inner.lock().unwrap();
        match guard.remove(&(service.to_owned(), account.to_owned())) {
            Some(_) => deleted_from_keyring(KeyringReply::Value(())),
            None => deleted_from_keyring(KeyringReply::NoEntry),
        }
    }
}

fn got(r: PasswordRequest) -> Result<String, RustmoteError> {
    match r {
        PasswordRequest::Done(found) => found,
        other => panic!("unexpected {other:?}"),
    }
}

fn done(r: PasswordChange) -> Result<(), RustmoteError> {
    match r {
        PasswordChange::Done(done) => done,
        other => panic!("unexpected {other:?}"),
    }
}

#[test]
fn default_is_prompt() {
    assert_eq!(CredentialMode::default(), CredentialMode::Prompt);
}

#[test]
fn display_roundtrips_through_fromstr() {
    for mode in [
        CredentialMode::Prompt,
        CredentialMode::Keychain,
        CredentialMode::Unsafe,
    ] {
        let s = mode.as_str().to_string();
        let parsed = CredentialMode::from_str(&s).expect("roundtrip");
        assert_eq!(parsed, mode);
    }
}

#[test]
fn fromstr_is_case_insensitive() {
    assert_eq!(
        CredentialMode::from_str("PROMPT").unwrap(),
        CredentialMode::Prompt
    );
    assert_eq!(
        CredentialMode::from_str("  KeyChain  ").unwrap(),
        CredentialMode::Keychain
    );
}

#[test]
fn fromstr_rejects_unknown() {
    assert!(CredentialMode::from_str("bogus").is_err());
}

#[test]
fn unknown_mode_names_the_text_in_lower_case() {
    let e = CredentialMode::parse(" BoGus ").unwrap_err();
    assert_eq!(e.0, "bogus");
    assert_eq!(
        e.message(),
        "unknown credential mode 'bogus'; expected one of: prompt | keychain | unsafe"
    );
}

#[test]
fn keyring_account_format_matches_spec() {
    assert_eq!(
        keyring_account("zima-brain", "charles"),
        "zima-brain:charles"
    );
}

#[test]
fn account_split_roundtrip() {
    let acct = keyring_account("zima-brain", "charles");
    assert_eq!(split_account_server(&acct), "zima-brain");
    assert_eq!(split_account_user(&acct), "charles");
}

#[test]
fn account_split_edge_cases() {
    assert_eq!(split_account_server("bare"), "bare");
    assert_eq!(split_account_user("bare"), "");
    assert_eq!(split_account_server("a:b:c"), "a");
    assert_eq!(split_account_user("a:b:c"), "b:c");
}

#[test]
fn unsafe_permissions_accepts_0600() {
    assert!(check_unsafe_permissions(FileMode::Bits(0o100_600)).is_ok());
}

#[test]
fn unsafe_permissions_refuses_0644() {
    match check_unsafe_permissions(FileMode::Bits(0o100_644)).unwrap_err() {
        RustmoteError::InsecureCredentialsFile(mode) => assert_eq!(mode, 0o644),
        other => panic!("unexpected error: {other:?}"),
    }
}

#[test]
fn unsafe_permissions_missing_file_is_ok() {
    assert!(check_unsafe_permissions(FileMode::Missing).is_ok());
}

#[test]
fn permissions_that_cannot_be_told_are_refused() {
    assert_eq!(
        check_unsafe_permissions(FileMode::Unreadable("x".to_string())),
        Err(RustmoteError::Io("x".to_string()))
    );
    assert_eq!(
        check_unsafe_permissions(FileMode::Unsupported),
        Err(RustmoteError::UnsafeModeUnsupportedOnPlatform)
    );
    assert!(check_unsafe_permissions(FileMode::Bits(0o400)).is_err());
}

#[test]
fn prompt_set_and_delete_are_noops() {
    let store = CredentialStore::<MockKeyring>::prompt();
    done(store.set_password("s", "u", "pw")).unwrap();
    done(store.delete_password("s", "u")).unwrap();
}

#[test]
fn prompt_mode_set_and_delete_are_noops() {
    let store = CredentialStore::<MockKeyring>::prompt();
    done(store.set_password("zima", "charles", "pw")).unwrap();
    done(store.delete_password("zima", "charles")).unwrap();
    assert_eq!(
        store.get_password("zima", "charles"),
        PasswordRequest::Ask("Password for charles@zima: ".to_string())
    );
}

#[test]
fn keychain_set_get_delete_roundtrip() {
    let mock = Arc::new(MockKeyring::empty());
    let store = CredentialStore::with_shared_keyring(mock.clone());

    done(store.set_password("zima", "charles", "hunter2")).unwrap();
    let password = got(store.get_password("zima", "charles")).unwrap();
    assert_eq!(password, "hunter2");
    {
        let map = mock.inner.lock().unwrap();
        assert_eq!(
            map.get(&(KEYRING_SERVICE.to_owned(), "zima:charles".to_owned()))
                .map(String::as_str),
            Some("hunter2")
        );
    }
    done(store.delete_password("zima", "charles")).unwrap();
    match got(store.get_password("zima", "charles")).unwrap_err() {
        RustmoteError::NoStoredCredential { server, user } => {
            assert_eq!(server, "zima");
            assert_eq!(user, "charles");
        }
        other => panic!("expected NoStoredCredential, got {other:?}"),
    }
}

#[test]
fn keychain_delete_missing_is_idempotent() {
    let store = CredentialStore::with_keyring(MockKeyring::empty());
    done(store.delete_password("nope", "nobody")).unwrap();
    done(store.delete_password("nope", "nobody")).unwrap();
}

#[test]
fn keychain_missing_entry_returns_no_stored_credential() {
    let store = CredentialStore::with_keyring(MockKeyring::empty());
    match got(store.get_password("zima", "charles")).unwrap_err() {
        RustmoteError::NoStoredCredential { server, user } => {
            assert_eq!(server, "zima");
            assert_eq!(user, "charles");
        }
        other => panic!("expected NoStoredCredential, got {other:?}"),
    }
}

#[test]
fn keyring_failures_are_credential_failures() {
    let failed = || KeyringReply::Failed("locked".to_string());
    assert_eq!(
        password_from_keyring("a:b", failed()),
        Err(RustmoteError::Credential("locked".to_string()))
    );
    assert_eq!(
        deleted_from_keyring(KeyringReply::Failed("locked".to_string())),
        Err(RustmoteError::Credential("locked".to_string()))
    );
}

#[test]
fn unsafe_set_get_delete_roundtrip() {
    let store = CredentialStore::<MockKeyring>::with_unsafe_file("/c/credentials.toml");
    let path = "/c/credentials.toml".to_string();
    assert_eq!(
        store.set_password("zima", "charles", "hunter2"),
        PasswordChange::ChangeIn(path.clone())
    );
    assert_eq!(
        store.get_password("zima", "charles"),
        PasswordRequest::LookIn(path.clone())
    );
    assert_eq!(
        store.delete_password("zima", "charles"),
        PasswordChange::ChangeIn(path)
    );
    let mut file = UnsafeFile::default();
    file.set("zima", "charles", "hunter2");
    assert_eq!(file.password_for("zima", "charles").unwrap(), "hunter2");
    file.set("zima", "root", "rootpw");
    assert_eq!(file.password_for("zima", "root").unwrap(), "rootpw");
    assert_eq!(file.password_for("zima", "charles").unwrap(), "hunter2");
    file.delete("zima", "charles");
    match file.password_for("zima", "charles").unwrap_err() {
        RustmoteError::NoStoredCredential { .. } => {}
        other => panic!("expected NoStoredCredential, got {other:?}"),
    }
    assert_eq!(file.password_for("zima", "root").unwrap(), "rootpw");
}

#[test]
fn stores_follow_the_mode() {
    let path = || Ok("/c".to_string());
    let store = CredentialStore::from_mode(CredentialMode::Prompt, MockKeyring::empty(), path());
    assert!(matches!(store, Ok(CredentialStore::Prompt)));
    let store = CredentialStore::from_mode(CredentialMode::Keychain, MockKeyring::empty(), path());
    assert!(matches!(store, Ok(CredentialStore::Keychain(_))));
    let mut cfg = Config::default();
    cfg.general.credential_mode = CredentialMode::Unsafe;
    let store = CredentialStore::from_config(&cfg, MockKeyring::empty(), path());
    assert!(matches!(store, Ok(CredentialStore::Unsafe { path }) if path == "/c"));
    let none = Err(RustmoteError::NoConfigDir);
    let store = CredentialStore::from_mode(CredentialMode::Unsafe, MockKeyring::empty(), none);
    assert!(matches!(store, Err(RustmoteError::NoConfigDir)));
}

#[test]
fn the_last_word_on_a_password_counts() {
    let mut file = UnsafeFile::default();
    file.set("a:b", "c", "old");
    file.set("a:b", "c", "new");
    file.set("zima", "charles", "other");
    file.delete("nas", "charles");
    assert_eq!(file.password_for("a:b", "c"), Ok("new".to_string()));
    file.delete("a:b", "c");
    file.delete("a:b", "c");
    file.set("nas", "charles", "more");
    assert_eq!(
        file.password_for("a:b", "c"),
        Err(RustmoteError::NoStoredCredential {
            server: "a:b".to_string(),
            user: "c".to_string(),
        })
    );
    assert_eq!(
        file.password_for("zima", "charles"),
        Ok("other".to_string())
    );
}
