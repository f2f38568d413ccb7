//! Showing and changing the configuration.
use crate::cli::{CommandError, CommandErrorView};
use crate::config::{Config, ConfigView, GeneralConfig};
use crate::credentials::{
    mode_key, mode_name, mode_names_are_read_back, unknown_mode_text, CredentialMode,
};
use crate::text::{concat3, decimal, lower_all, opt_view, text_decimal, trim, views};
use vstd::prelude::*;

verus! {

/// What is said where the unsafe mode is refused.
pub const UNSAFE_REFUSAL: &'static str = "refusing to enable unsafe mode without --i-understand-this-is-insecure (spec §6.2). Unsafe mode stores plaintext SSH passwords in $CONFIG/rustmote/credentials.toml with mode 0600 and logs a warning on every access. Prefer 'keychain' where available.";

/// What is said where the unsafe mode is taken.
pub const UNSAFE_WARNING: &'static str = "warning: plaintext credentials will be written to $CONFIG/rustmote/credentials.toml (mode 0600 on Unix)";

/// The mode that a text names, or why it is not taken: it may name none, and the unsafe mode is
/// taken only where the user says that they understand.
pub open spec fn gated_mode(mode: Seq<char>, ack_unsafe: bool) -> Result<
    CredentialMode,
    CommandErrorView,
> {
    let key = mode_key(mode);
    if key == mode_name(CredentialMode::Prompt) {
        Ok(CredentialMode::Prompt)
    } else if key == mode_name(CredentialMode::Keychain) {
        Ok(CredentialMode::Keychain)
    } else if key == mode_name(CredentialMode::Unsafe) {
        if ack_unsafe {
            Ok(CredentialMode::Unsafe)
        } else {
            Err(CommandError::Message(UNSAFE_REFUSAL@))
        }
    } else {
        Err(
            CommandError::Explained {
                context: "'"@ + mode
                    + "' is not a valid credential mode (expected: prompt | keychain | unsafe)"@,
                reason: unknown_mode_text(key),
            },
        )
    }
}

/// Reads the mode that the user wants, and refuses the unsafe one where they did not say that they
/// understand.
pub fn parse_and_gate_mode(mode: &str, ack_unsafe: bool) -> (r: Result<
    CredentialMode,
    CommandError,
>)
    ensures
        match r {
            Ok(parsed) => gated_mode(mode@, ack_unsafe) == Ok::<CredentialMode, CommandErrorView>(
                parsed,
            ),
            Err(e) => gated_mode(mode@, ack_unsafe) == Err::<CredentialMode, CommandErrorView>(e@),
        },
{
    proof {
        mode_names_are_read_back(CredentialMode::Prompt);
        mode_names_are_read_back(CredentialMode::Keychain);
        mode_names_are_read_back(CredentialMode::Unsafe);
    }
    match CredentialMode::parse(mode) {
        Ok(parsed) => if parsed == CredentialMode::Unsafe && !ack_unsafe {
            Err(CommandError::Message(UNSAFE_REFUSAL.to_owned()))
        } else {
            Ok(parsed)
        },
        Err(unknown) => {
            assert(unknown.0@ != mode_name(CredentialMode::Prompt));
            assert(unknown.0@ != mode_name(CredentialMode::Keychain));
            assert(unknown.0@ != mode_name(CredentialMode::Unsafe));
            Err(
                CommandError::Explained {
                    context: concat3(
                        "'",
                        mode,
                        "' is not a valid credential mode (expected: prompt | keychain | unsafe)",
                    ),
                    reason: unknown.message(),
                },
            )
        },
    }
}

/// The unsafe mode is never taken without the user's word.
pub proof fn unsafe_mode_needs_the_users_word(mode: Seq<char>)
    ensures
        gated_mode(mode, false) != Ok::<CredentialMode, CommandErrorView>(CredentialMode::Unsafe),
{
}

/// Takes a mode over, and tells whether it is another than before.
pub fn apply_mode(cfg: &mut Config, new: CredentialMode) -> (changed: bool)
    ensures
        changed == (old(cfg).general.credential_mode != new),
        final(cfg)@ == (ConfigView {
            general: GeneralConfig { credential_mode: new, ..old(cfg)@.general },
            ..old(cfg)@
        }),
{
    if cfg.general.credential_mode == new {
        return false;
    }
    cfg.general.credential_mode = new;
    true
}

/// What is said of a mode that is taken over.
pub open spec fn mode_message(previous: CredentialMode, new: CredentialMode) -> Seq<char> {
    if previous == new {
        "credential_mode already "@ + mode_name(new) + "; no change"@
    } else {
        "credential_mode: "@ + mode_name(previous) + " -> "@ + mode_name(new)
    }
}

/// What is said of a mode that is taken over.
pub fn mode_change_message(previous: CredentialMode, new: CredentialMode) -> (r: String)
    ensures
        r@ == mode_message(previous, new),
{
    if previous == new {
        concat3("credential_mode already ", new.as_str(), "; no change")
    } else {
        let mut text = concat3("credential_mode: ", previous.as_str(), " -> ");
        text.push_str(new.as_str());
        text
    }
}

/// One row of a table of settings.
#[derive(Debug, PartialEq, Eq)]
pub struct Row<T = String> {
    pub key: T,
    pub value: T,
}

/// The view of a [`Row`].
pub type RowView = Row<Seq<char>>;

impl View for Row {
    type V = Row<Seq<char>>;

    open spec fn view(&self) -> Row<Seq<char>> {
        Row { key: self.key@, value: self.value@ }
    }
}

/// A row of a table of settings.
pub fn row(key: &str, value: String) -> (r: Row)
    ensures
        r@ == (Row { key: key@, value: value@ }),
{
    Row { key: key.to_owned(), value }
}

/// The server that is used where none is named, as it is shown.
pub open spec fn shown_default(cfg: ConfigView) -> Seq<char> {
    match cfg.general.default_server {
        Some(name) => name,
        None => "(none)"@,
    }
}

/// The server that is used where none is named, as it is shown.
pub fn default_server_text(default_server: &Option<String>) -> (r: String)
    ensures
        r@ == match opt_view(*default_server) {
            Some(name) => name,
            None => "(none)"@,
        },
{
    match default_server {
        Some(name) => name.clone(),
        None => "(none)".to_owned(),
    }
}

/// The settings as they are shown.
pub open spec fn settings(cfg: ConfigView, path: Seq<char>) -> Seq<RowView> {
    seq![
        Row { key: "config_path"@, value: path },
        Row { key: "credential_mode"@, value: mode_name(cfg.general.credential_mode) },
        Row { key: "default_server"@, value: shown_default(cfg) },
        Row {
            key: "viewer_path"@,
            value: if cfg.general.viewer_path.len() == 0 {
                "(auto-detect)"@
            } else {
                cfg.general.viewer_path
            },
        },
        Row { key: "servers"@, value: decimal(cfg.servers.len()) },
        Row { key: "targets"@, value: decimal(cfg.targets.len()) },
    ]
}

/// The rows of the table that shows the settings.
pub fn show_rows(cfg: &Config, path: &str) -> (out: Vec<Row>)
    ensures
        views(out@) == settings(cfg@, path@),
{
    let viewer = if cfg.general.viewer_path.as_str().is_empty() {
        "(auto-detect)".to_owned()
    } else {
        cfg.general.viewer_path.clone()
    };
    let mut out: Vec<Row> = Vec::new();
    out.push(row("config_path", path.to_owned()));
    out.push(row("credential_mode", cfg.general.credential_mode.as_str().to_owned()));
    out.push(row("default_server", default_server_text(&cfg.general.default_server)));
    out.push(row("viewer_path", viewer));
    out.push(row("servers", text_decimal(cfg.servers.len() as u64)));
    out.push(row("targets", text_decimal(cfg.targets.len() as u64)));
    assert(views(out@) =~= settings(cfg@, path@));
    out
}

/// A text names a mode by its name, whatever its case and the white space round it. The unsafe mode
/// is taken exactly where the user says that they understand; the other two always are, and nothing
/// else is.
pub proof fn modes_are_taken_by_their_name(
    mode: &str,
    ack_unsafe: bool,
    r: Result<CredentialMode, CommandError>,
)
    requires
        call_ensures(parse_and_gate_mode, (mode, ack_unsafe), r),
    ensures
        ({
            let name = lower_all(trim(mode@));
            &&& r == Ok::<CredentialMode, CommandError>(CredentialMode::Prompt) <==> name
                == "prompt"@
            &&& r == Ok::<CredentialMode, CommandError>(CredentialMode::Keychain) <==> name
                == "keychain"@
            &&& r == Ok::<CredentialMode, CommandError>(CredentialMode::Unsafe) <==> name
                == "unsafe"@ && ack_unsafe
        }),
{
    mode_names_are_read_back(CredentialMode::Prompt);
    mode_names_are_read_back(CredentialMode::Keychain);
    mode_names_are_read_back(CredentialMode::Unsafe);
    assert("prompt"@ == mode_name(CredentialMode::Prompt));
    assert("keychain"@ == mode_name(CredentialMode::Keychain));
    assert("unsafe"@ == mode_name(CredentialMode::Unsafe));
}

/// To take a mode over changes nothing of the configuration but the mode, and tells whether that is
/// another.
pub proof fn modes_change_nothing_else(cfg: &mut Config, new: CredentialMode, r: bool)
    requires
        call_ensures(apply_mode, (cfg, new), r),
    ensures
        final(cfg)@.general.credential_mode == new,
        r <==> old(cfg)@.general.credential_mode != new,
        final(cfg)@.general.default_server == old(cfg)@.general.default_server,
        final(cfg)@.general.viewer_path == old(cfg)@.general.viewer_path,
        final(cfg)@.servers == old(cfg)@.servers,
        final(cfg)@.targets == old(cfg)@.targets,
{
}

/// The table of the settings shows each setting under its name, and how many servers and targets
/// are registered.
pub proof fn tables_show_the_settings(cfg: &Config, path: &str, r: Vec<Row>)
    requires
        call_ensures(show_rows, (cfg, path), r),
    ensures
        ({
            let rows = views(r@);
            let general = cfg.general;
            &&& rows.len() == 6
            &&& rows.contains(Row { key: "config_path"@, value: path@ })
            &&& rows.contains(
                Row {
                    key: "credential_mode"@,
                    value: match general.credential_mode {
                        CredentialMode::Prompt => "prompt"@,
                        CredentialMode::Keychain => "keychain"@,
                        CredentialMode::Unsafe => "unsafe"@,
                    },
                },
            )
            &&& general.default_server matches Some(name) ==> rows.contains(
                Row { key: "default_server"@, value: name@ },
            )
            &&& general.default_server is None ==> rows.contains(
                Row { key: "default_server"@, value: "(none)"@ },
            )
            &&& general.viewer_path@.len() > 0 ==> rows.contains(
                Row { key: "viewer_path"@, value: general.viewer_path@ },
            )
            &&& general.viewer_path@.len() == 0 ==> rows.contains(
                Row { key: "viewer_path"@, value: "(auto-detect)"@ },
            )
            &&& rows.contains(Row { key: "servers"@, value: decimal(cfg.servers@.len()) })
            &&& rows.contains(Row { key: "targets"@, value: decimal(cfg.targets@.len()) })
        }),
{
    let rows = views(r@);
    assert(rows[0].key == "config_path"@ && rows[1].key == "credential_mode"@);
    assert(rows[2].key == "default_server"@ && rows[3].key == "viewer_path"@);
    assert(rows[4].key == "servers"@ && rows[5].key == "targets"@);
}

/// What is said of a mode that is taken over names the old one and then the new one, or says that
/// nothing changes.
pub proof fn changes_of_mode_are_told(previous: CredentialMode, new: CredentialMode, r: String)
    requires
        call_ensures(mode_change_message, (previous, new), r),
    ensures
        previous != new ==> r@ == "credential_mode: "@ + mode_name(previous) + " -> "@ + mode_name(
            new,
        ),
        previous == new ==> r@ == "credential_mode already "@ + mode_name(new) + "; no change"@,
{
}

} // verus!
