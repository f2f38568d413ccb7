//! Registering and showing servers.
use crate::cli::{or_dash, text_or_dash, wrapped, CommandError, CommandErrorView};
use crate::cli::config::{row, Row, RowView};
use crate::config::{Config, ConfigView};
use crate::error::RustmoteError;
use crate::registry::{is_server_name, lemma_server_at, server_at, RemoteServer, ServerView};
use crate::text::{concat3, decimal, opt_view, text_decimal, views};
use crate::time::{chrono_rfc3339, Timestamp};
use vstd::prelude::*;

verus! {

/// What is said where there is no server to list.
pub const NO_SERVERS: &'static str = "no servers registered (use `rustmote server add <name> --host <ip>`)";

/// What is said where the user is needed and cannot be asked for.
pub const USER_NEEDED: &'static str = "--user is required when stdin is not a TTY (pass --user <name>)";

/// Tests the name of a server that is to be registered.
pub fn check_name(name: &str) -> (r: Result<(), CommandError>)
    ensures
        r is Ok <==> is_server_name(name@),
        r matches Err(e) ==> e@ == (CommandError::Wrapped {
            context: "validating server name against spec §6.4"@,
            cause: RustmoteError::InvalidServerName(name@),
        }),
{
    wrapped(RemoteServer::validate_name(name), "validating server name against spec §6.4")
}

/// Where the user of a server comes from.
#[derive(Debug, PartialEq, Eq)]
pub enum UserSource<T = String, E = CommandError> {
    /// It is given.
    Given(T),
    /// It is asked for, with this prompt.
    Ask(T),
    /// It is nowhere to be had.
    Missing(E),
}

/// The view of a [`UserSource`].
pub type UserSourceView = UserSource<Seq<char>, CommandErrorView>;

impl View for UserSource {
    type V = UserSourceView;

    open spec fn view(&self) -> UserSourceView {
        match self {
            UserSource::Given(user) => UserSource::Given(user@),
            UserSource::Ask(prompt) => UserSource::Ask(prompt@),
            UserSource::Missing(e) => UserSource::Missing(e@),
        }
    }
}

/// Where the user of a server comes from: the one given, or else whoever is at the terminal.
pub fn resolve_user(user: Option<String>, is_tty: bool, server_name: &str) -> (r: UserSource)
    ensures
        r@ == match opt_view(user) {
            Some(u) => UserSource::Given(u),
            None => if is_tty {
                UserSource::Ask("SSH username for '"@ + server_name@ + "'"@)
            } else {
                UserSource::Missing(CommandError::Message(USER_NEEDED@))
            },
        },
{
    match user {
        Some(u) => UserSource::Given(u),
        None => if is_tty {
            UserSource::Ask(concat3("SSH username for '", server_name, "'"))
        } else {
            UserSource::Missing(CommandError::Message(USER_NEEDED.to_owned()))
        },
    }
}

/// Registers a server.
pub fn register(cfg: &mut Config, server: RemoteServer) -> (r: Result<(), CommandError>)
    ensures
        if server_at(old(cfg)@.servers, server@.name) < old(cfg)@.servers.len() {
            *final(cfg) == *old(cfg) && (r matches Err(e) && e@ == (CommandError::Wrapped {
                context: "adding server to registry"@,
                cause: RustmoteError::ServerAlreadyExists(server@.name),
            }))
        } else {
            r is Ok && final(cfg)@ == (ConfigView {
                servers: old(cfg)@.servers.push(server@),
                ..old(cfg)@
            })
        },
{
    wrapped(cfg.add_server(server), "adding server to registry")
}

/// Takes a server out of the registry.
pub fn unregister(cfg: &mut Config, name: &str) -> (r: Result<RemoteServer, CommandError>)
    ensures
        ({
            let at = server_at(old(cfg)@.servers, name@) as int;
            if at < old(cfg)@.servers.len() {
                (r matches Ok(s) && s@ == old(cfg)@.servers[at]) && final(cfg)@ == (ConfigView {
                    servers: old(cfg)@.servers.remove(at),
                    ..old(cfg)@
                })
            } else {
                *final(cfg) == *old(cfg) && (r matches Err(e) && e@ == (CommandError::Wrapped {
                    context: "removing server"@,
                    cause: RustmoteError::UnknownServer(name@),
                }))
            }
        }),
{
    wrapped(cfg.remove_server(name), "removing server")
}

/// What is said of a server that was added or removed.
pub fn change_message(verb: &str, name: &str, host: &str) -> (r: String)
    ensures
        r@ == verb@ + " server '"@ + name@ + "' ("@ + host@ + ")"@,
{
    let mut text = concat3(verb, " server '", name);
    text.push_str("' (");
    text.push_str(host);
    text.push_str(")");
    text
}

/// The cells of a server's row: name, host, port, user, relay port, and the day of registration.
pub open spec fn server_cells(s: ServerView, host: Seq<char>) -> Seq<Seq<char>> {
    seq![
        s.name,
        host,
        decimal(s.ssh_port as nat),
        s.ssh_user,
        decimal(s.relay_port as nat),
        s.created_at.spec_day(),
    ]
}

/// The cells of a server's row in the list; the host comes as text.
pub fn list_cells(s: &RemoteServer, host: &str) -> (out: Vec<String>)
    ensures
        views(out@) == server_cells(s@, host@),
{
    let mut out: Vec<String> = Vec::new();
    out.push(s.name.clone());
    out.push(host.to_owned());
    out.push(text_decimal(s.ssh_port as u64));
    out.push(s.ssh_user.clone());
    out.push(text_decimal(s.relay_port as u64));
    out.push(s.created_at.day());
    assert(views(out@) =~= server_cells(s@, host@));
    out
}

/// An instant as it is shown, where there is one.
pub open spec fn shown_instant(at: Option<Timestamp>) -> Seq<char> {
    match at {
        Some(t) => chrono_rfc3339(t.spec_secs(), t.spec_nanos()),
        None => "—"@,
    }
}

/// All that is registered of a server, as it is shown.
pub open spec fn server_rows(s: ServerView, host: Seq<char>) -> Seq<RowView> {
    seq![
        Row { key: "name"@, value: s.name },
        Row { key: "host"@, value: host },
        Row { key: "ssh_port"@, value: decimal(s.ssh_port as nat) },
        Row { key: "ssh_user"@, value: s.ssh_user },
        Row { key: "relay_port"@, value: decimal(s.relay_port as nat) },
        Row { key: "relay_key"@, value: or_dash(s.relay_key) },
        Row { key: "created_at"@, value: shown_instant(Some(s.created_at)) },
        Row { key: "last_used"@, value: shown_instant(s.last_used) },
    ]
}

/// The rows of the table that shows a server; the host comes as text.
pub fn detail_rows(s: &RemoteServer, host: &str) -> (out: Vec<Row>)
    ensures
        views(out@) == server_rows(s@, host@),
{
    let used = match s.last_used {
        Some(t) => t.rfc3339(),
        None => "—".to_owned(),
    };
    let mut out: Vec<Row> = Vec::new();
    out.push(row("name", s.name.clone()));
    out.push(row("host", host.to_owned()));
    out.push(row("ssh_port", text_decimal(s.ssh_port as u64)));
    out.push(row("ssh_user", s.ssh_user.clone()));
    out.push(row("relay_port", text_decimal(s.relay_port as u64)));
    out.push(row("relay_key", text_or_dash(&s.relay_key)));
    out.push(row("created_at", s.created_at.rfc3339()));
    out.push(row("last_used", used));
    assert(views(out@) =~= server_rows(s@, host@));
    out
}

// ---------------------------------------------------------------------------------------------
// What holds of the commands
// ---------------------------------------------------------------------------------------------

/// A server is registered exactly where none of its name is: it then stands behind all others,
/// which stay as they are. A refusal names the name and changes nothing.
pub proof fn servers_are_registered_under_free_names(
    cfg: &mut Config,
    server: RemoteServer,
    r: Result<(), CommandError>,
)
    requires
        call_ensures(register, (cfg, server), r),
    ensures
        ({
            let before = old(cfg)@;
            let after = final(cfg)@;
            let taken = exists|i: int|
                0 <= i < before.servers.len() && (#[trigger] before.servers[i]).name == server.name@;
            &&& r is Ok <==> !taken
            &&& taken ==> after == before
            &&& !taken ==> after.servers == before.servers.push(server@)
            &&& after.targets == before.targets
            &&& after.general == before.general
        }),
{
    lemma_server_at(cfg@.servers, server@.name);
}

/// A server is taken out under its name: the first of that name is given back and is gone, and all
/// others stay, in their order. An unknown name changes nothing.
pub proof fn servers_are_removed_by_name(
    cfg: &mut Config,
    name: &str,
    r: Result<RemoteServer, CommandError>,
)
    requires
        call_ensures(unregister, (cfg, name), r),
    ensures
        ({
            let before = old(cfg)@;
            let after = final(cfg)@;
            &&& r is Err ==> after == before && forall|i: int|
                0 <= i < before.servers.len() ==> (#[trigger] before.servers[i]).name != name@
            &&& r matches Ok(gone) ==> exists|at: int|
                {
                    &&& 0 <= at < before.servers.len()
                    &&& #[trigger] before.servers[at] == gone@
                    &&& gone.name@ == name@
                    &&& after.servers == before.servers.take(at) + before.servers.skip(at + 1)
                    &&& forall|j: int|
                        0 <= j < at ==> (#[trigger] before.servers[j]).name != name@
                }
            &&& after.targets == before.targets
            &&& after.general == before.general
        }),
{
    lemma_server_at(cfg@.servers, name@);
    let at = server_at(cfg@.servers, name@) as int;
    if at < cfg@.servers.len() {
        assert(cfg@.servers[at].name == name@);
        assert(cfg@.servers.remove(at) =~= cfg@.servers.take(at) + cfg@.servers.skip(at + 1));
    }
}

/// The user of a server is the given one, wherever one is given. Else somebody at the terminal is
/// asked, by the server's name, and without a terminal there is none.
pub proof fn given_users_are_taken(
    user: Option<String>,
    is_tty: bool,
    server_name: &str,
    r: UserSource,
)
    requires
        call_ensures(resolve_user, (user, is_tty, server_name), r),
    ensures
        user matches Some(given) ==> (r matches UserSource::Given(u) && u@ == given@),
        user is None && is_tty ==> (r matches UserSource::Ask(prompt) && prompt@
            == "SSH username for '"@ + server_name@ + "'"@),
        user is None && !is_tty ==> r is Missing,
{
}

/// The row of a server shows, one after the other, its name, its host, the port and the user of its
/// logins, the port of its relay and the day on which it was registered.
pub proof fn rows_show_their_server(s: &RemoteServer, host: &str, r: Vec<String>)
    requires
        call_ensures(list_cells, (s, host), r),
    ensures
        r@.len() == 6,
        r@[0]@ == s.name@,
        r@[1]@ == host@,
        r@[2]@ == decimal(s.ssh_port as nat),
        r@[3]@ == s.ssh_user@,
        r@[4]@ == decimal(s.relay_port as nat),
        r@[5]@ == s.created_at.spec_day(),
{
    let cells = views(r@);
    assert(cells == server_cells(s@, host@));
    assert(cells.len() == 6);
    assert(cells[0] == r@[0]@ && cells[1] == r@[1]@ && cells[2] == r@[2]@);
    assert(cells[3] == r@[3]@ && cells[4] == r@[4]@ && cells[5] == r@[5]@);
}

/// The table of a server shows each of its fields under the name of the field.
pub proof fn tables_show_their_server(s: &RemoteServer, host: &str, r: Vec<Row>)
    requires
        call_ensures(detail_rows, (s, host), r),
    ensures
        ({
            let rows = views(r@);
            &&& rows.contains(Row { key: "name"@, value: s.name@ })
            &&& rows.contains(Row { key: "host"@, value: host@ })
            &&& rows.contains(Row { key: "ssh_port"@, value: decimal(s.ssh_port as nat) })
            &&& rows.contains(Row { key: "ssh_user"@, value: s.ssh_user@ })
            &&& rows.contains(Row { key: "relay_port"@, value: decimal(s.relay_port as nat) })
            &&& s.relay_key matches Some(key) ==> rows.contains(
                Row { key: "relay_key"@, value: key@ },
            )
            &&& rows.contains(
                Row {
                    key: "created_at"@,
                    value: chrono_rfc3339(s.created_at.spec_secs(), s.created_at.spec_nanos()),
                },
            )
            &&& s.last_used matches Some(at) ==> rows.contains(
                Row { key: "last_used"@, value: chrono_rfc3339(at.spec_secs(), at.spec_nanos()) },
            )
            &&& s.relay_key is None ==> rows.contains(Row { key: "relay_key"@, value: "—"@ })
            &&& s.last_used is None ==> rows.contains(Row { key: "last_used"@, value: "—"@ })
            &&& rows.len() == 8
        }),
{
    let rows = views(r@);
    assert(rows[0].key == "name"@ && rows[1].key == "host"@ && rows[2].key == "ssh_port"@);
    assert(rows[3].key == "ssh_user"@ && rows[4].key == "relay_port"@);
    assert(rows[5].key == "relay_key"@ && rows[6].key == "created_at"@);
    assert(rows[7].key == "last_used"@);
}

} // verus!
