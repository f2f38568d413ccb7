//! Connecting to a target.
use crate::cli::{CommandError, CommandErrorView};
use crate::config::{Config, ConfigView};
use crate::error::RustmoteError;
use crate::path::{join_local, local_join, PathStyle};
use crate::registry::{
    lemma_server_at, lemma_target_at, server_at, target_at, RemoteServer, ServerView,
};
use crate::session::login::usual_keys;
use crate::target::{Target, TargetView};
use crate::text::{concat3, decimal, list_contains, opt_str, opt_view, text_decimal, text_eq, views};
use crate::time::Timestamp;
use crate::viewer::{is_target_id, TargetId};
use vstd::prelude::*;

verus! {

/// What the user asked for.
#[derive(Debug, PartialEq, Eq)]
pub struct ConnectArgs {
    /// The target's id or label.
    pub target: String,
    /// The server to go through, in place of the usual one.
    pub via: Option<String>,
    /// The user on that server, in place of the registered one.
    pub user: Option<String>,
}

/// The position of the first target with a label, or the number of targets where there is none.
pub open spec fn label_at(targets: Seq<TargetView>, label: Seq<char>) -> nat
    decreases targets.len(),
{
    if targets.len() == 0 || targets[0].label == Some(label) {
        0
    } else {
        1 + label_at(targets.skip(1), label)
    }
}

fn find_label(cfg: &Config, label: &str) -> (r: usize)
    ensures
        r == label_at(cfg@.targets, label@),
        r <= cfg.targets@.len(),
{
    let mut i: usize = 0;
    assert(cfg@.targets.skip(0) =~= cfg@.targets);
    while i < cfg.targets.len()
        invariant
            i <= cfg.targets@.len(),
            label_at(cfg@.targets, label@) == i + label_at(cfg@.targets.skip(i as int), label@),
        decreases cfg.targets@.len() - i,
    {
        assert(cfg@.targets.skip(i as int)[0] == cfg.targets@[i as int]@);
        assert(cfg@.targets.skip(i as int).skip(1) =~= cfg@.targets.skip(i + 1));
        let same = match &cfg.targets[i].label {
            Some(l) => text_eq(l.as_str(), label),
            None => false,
        };
        if same {
            return i;
        }
        i += 1;
    }
    i
}

/// A target id, or that a text is none, with what was done.
pub open spec fn checked_id(id: Seq<char>, context: Seq<char>) -> Result<
    Seq<char>,
    CommandErrorView,
> {
    if is_target_id(id) {
        Ok(id)
    } else {
        Err(CommandError::Wrapped { context, cause: RustmoteError::InvalidTargetId(id) })
    }
}

/// The target that the user means: the registered one with that id, or with that label, or the bare
/// id.
pub open spec fn meant_target(cfg: ConfigView, arg: Seq<char>) -> (
    Result<Seq<char>, CommandErrorView>,
    Option<TargetView>,
) {
    let by_id = target_at(cfg.targets, arg) as int;
    let by_label = label_at(cfg.targets, arg) as int;
    if by_id < cfg.targets.len() {
        let t = cfg.targets[by_id];
        (
            checked_id(
                t.id,
                "target '"@ + arg + "' has stored id '"@ + t.id + "' that fails spec §3.5"@,
            ),
            Some(t),
        )
    } else if by_label < cfg.targets.len() {
        let t = cfg.targets[by_label];
        (
            checked_id(
                t.id,
                "target with label '"@ + arg + "' has stored id '"@ + t.id
                    + "' that fails spec §3.5"@,
            ),
            Some(t),
        )
    } else {
        (
            checked_id(
                arg,
                "'"@ + arg
                    + "' is neither a registered target id/label nor a valid RustDesk ID (spec §3.5)"@,
            ),
            None,
        )
    }
}

fn check_id(id: &str, context: String) -> (r: Result<TargetId, CommandError>)
    ensures
        match r {
            Ok(t) => checked_id(id@, context@) == Ok::<Seq<char>, CommandErrorView>(t@),
            Err(e) => checked_id(id@, context@) == Err::<Seq<char>, CommandErrorView>(e@),
        },
{
    match TargetId::new(id) {
        Ok(t) => Ok(t),
        Err(e) => Err(CommandError::Wrapped { context, cause: e }),
    }
}

/// The view of an optional target.
pub open spec fn opt_target(t: Option<Target>) -> Option<TargetView> {
    match t {
        Some(t) => Some(t@),
        None => None,
    }
}

/// Finds the target that the user means.
pub fn resolve_target(cfg: &Config, arg: &str) -> (r: Result<
    (TargetId, Option<Target>),
    CommandError,
>)
    ensures
        match r {
            Ok((id, matched)) => meant_target(cfg@, arg@) == (
                Ok::<Seq<char>, CommandErrorView>(id@),
                opt_target(matched),
            ),
            Err(e) => meant_target(cfg@, arg@).0 == Err::<Seq<char>, CommandErrorView>(e@),
        },
{
    match cfg.get_target(arg) {
        Ok(t) => {
            let mut context = concat3("target '", arg, "' has stored id '");
            context.push_str(t.id.as_str());
            context.push_str("' that fails spec §3.5");
            return match check_id(t.id.as_str(), context) {
                Ok(id) => Ok((id, Some(t.clone()))),
                Err(e) => Err(e),
            };
        },
        Err(_) => {},
    }
    let at = find_label(cfg, arg);
    if at < cfg.targets.len() {
        let t = &cfg.targets[at];
        assert(cfg@.targets[at as int] == t@);
        let mut context = concat3("target with label '", arg, "' has stored id '");
        context.push_str(t.id.as_str());
        context.push_str("' that fails spec §3.5");
        return match check_id(t.id.as_str(), context) {
            Ok(id) => Ok((id, Some(t.clone()))),
            Err(e) => Err(e),
        };
    }
    let context = concat3(
        "'",
        arg,
        "' is neither a registered target id/label nor a valid RustDesk ID (spec §3.5)",
    );
    match check_id(arg, context) {
        Ok(id) => Ok((id, None)),
        Err(e) => Err(e),
    }
}

/// What is said where no server is named anywhere.
pub const NO_SERVER: &'static str = "no relay server resolved: pass --via <server>, set target.via_server, or set general.default_server";

/// The server to go through: the one that the user names, or that of the target, or the default.
pub open spec fn chosen_server(
    via: Option<Seq<char>>,
    matched: Option<TargetView>,
    default_server: Option<Seq<char>>,
) -> Option<Seq<char>> {
    if via is Some {
        via
    } else if matched is Some && matched->0.via_server is Some {
        matched->0.via_server
    } else {
        default_server
    }
}

/// Finds the server to go through.
pub fn resolve_via_name(via_cli: Option<&str>, matched: Option<&Target>, cfg: &Config) -> (r:
    Result<String, CommandError>)
    ensures
        match chosen_server(
            opt_str(via_cli),
            match matched {
                Some(t) => Some(t@),
                None => None,
            },
            cfg@.general.default_server,
        ) {
            Some(name) => r matches Ok(n) && n@ == name,
            None => r matches Err(e) && e@ == CommandError::Message(NO_SERVER@),
        },
{
    match via_cli {
        Some(v) => {
            return Ok(v.to_owned());
        },
        None => {},
    }
    match matched {
        Some(t) => match &t.via_server {
            Some(v) => {
                return Ok(v.clone());
            },
            None => {},
        },
        None => {},
    }
    match &cfg.general.default_server {
        Some(name) => Ok(name.clone()),
        None => Err(CommandError::Message(NO_SERVER.to_owned())),
    }
}

/// A connection that is to be made.
#[derive(Debug, PartialEq, Eq)]
pub struct ConnectPlan {
    pub target: TargetId,
    /// The server's name in the registry.
    pub via_name: String,
    /// The server, with the user that is to be used on it.
    pub server: RemoteServer,
}

/// The server of a name, with another user where one is given.
pub open spec fn server_for(cfg: ConfigView, name: Seq<char>, user: Option<Seq<char>>) -> Result<
    ServerView,
    CommandErrorView,
> {
    let at = server_at(cfg.servers, name) as int;
    if at < cfg.servers.len() {
        match user {
            Some(u) => Ok(RemoteServer { ssh_user: u, ..cfg.servers[at] }),
            None => Ok(cfg.servers[at]),
        }
    } else {
        Err(
            CommandError::Wrapped {
                context: "resolving relay server '"@ + name + "'"@,
                cause: RustmoteError::UnknownServer(name),
            },
        )
    }
}

/// Decides what to connect to and how. The registry stays as it is: another user counts for this
/// connection only.
pub fn plan_connect(cfg: &Config, args: &ConnectArgs) -> (r: Result<ConnectPlan, CommandError>)
    ensures
        ({
            let (id, matched) = meant_target(cfg@, args.target@);
            let name = chosen_server(opt_view(args.via), matched, cfg@.general.default_server);
            match r {
                Ok(plan) => id == Ok::<Seq<char>, CommandErrorView>(plan.target@) && name == Some(
                    plan.via_name@,
                ) && server_for(cfg@, plan.via_name@, opt_view(args.user)) == Ok::<
                    ServerView,
                    CommandErrorView,
                >(plan.server@),
                Err(e) => if id is Err {
                    id == Err::<Seq<char>, CommandErrorView>(e@)
                } else if name is None {
                    e@ == CommandError::Message(NO_SERVER@)
                } else {
                    server_for(cfg@, name->0, opt_view(args.user)) == Err::<
                        ServerView,
                        CommandErrorView,
                    >(e@)
                },
            }
        }),
{
    let (target, matched) = match resolve_target(cfg, args.target.as_str()) {
        Ok(found) => found,
        Err(e) => {
            return Err(e);
        },
    };
    let via = match &args.via {
        Some(v) => Some(v.as_str()),
        None => None,
    };
    let via_name = match resolve_via_name(via, matched.as_ref(), cfg) {
        Ok(name) => name,
        Err(e) => {
            return Err(e);
        },
    };
    match cfg.get_server(via_name.as_str()) {
        Ok(found) => {
            let mut server = found.clone();
            match &args.user {
                Some(u) => {
                    server.ssh_user = u.clone();
                },
                None => {},
            }
            Ok(ConnectPlan { target, via_name, server })
        },
        Err(e) => Err(
            CommandError::Wrapped {
                context: concat3("resolving relay server '", via_name.as_str(), "'"),
                cause: e,
            },
        ),
    }
}

/// Whether a private key stands in one of the usual places.
pub open spec fn usual_key_there(
    style: PathStyle,
    home: Option<Seq<char>>,
    files: Seq<Seq<char>>,
) -> bool {
    match home {
        Some(dir) => files.contains(usual_keys(style, dir)[0]) || files.contains(
            usual_keys(style, dir)[1],
        ),
        None => false,
    }
}

/// Whether a private key stands in one of the usual places; the files among them are given.
pub fn has_default_ssh_keys(style: PathStyle, home: Option<&str>, files: &Vec<String>) -> (r: bool)
    ensures
        r == usual_key_there(style, opt_str(home), views(files@)),
{
    match home {
        None => false,
        Some(dir) => {
            let ssh = join_local(style, dir, ".ssh");
            let first = join_local(style, ssh.as_str(), "id_ed25519");
            let second = join_local(style, ssh.as_str(), "id_rsa");
            list_contains(files, first.as_str()) || list_contains(files, second.as_str())
        },
    }
}

/// Whom to ask for the password of a login.
#[derive(Debug, PartialEq, Eq)]
pub enum PasswordSource<T = String> {
    /// No one: there are keys to try.
    NoOne,
    /// The store, for a user on a server.
    Store { server: T, user: T },
}

/// The view of a [`PasswordSource`].
pub type PasswordSourceView = PasswordSource<Seq<char>>;

impl View for PasswordSource {
    type V = PasswordSourceView;

    open spec fn view(&self) -> PasswordSourceView {
        match self {
            PasswordSource::NoOne => PasswordSource::NoOne,
            PasswordSource::Store { server, user } => PasswordSource::Store {
                server: server@,
                user: user@,
            },
        }
    }
}

/// Whom to ask for the password of a login at a server: no one where a private key stands in one of
/// the usual places, else the store, for the user that logs in there.
pub fn resolve_password(
    style: PathStyle,
    server: &RemoteServer,
    home: Option<&str>,
    files: &Vec<String>,
) -> (r: PasswordSource)
    ensures
        r@ == if usual_key_there(style, opt_str(home), views(files@)) {
            PasswordSource::NoOne
        } else {
            PasswordSource::Store { server: server.name@, user: server.ssh_user@ }
        },
{
    if has_default_ssh_keys(style, home, files) {
        PasswordSource::NoOne
    } else {
        PasswordSource::Store { server: server.name.clone(), user: server.ssh_user.clone() }
    }
}

/// The password that a login may use: none where none is kept; other failures stay failures.
pub fn password_or_none(found: Result<String, RustmoteError>) -> (r: Result<
    Option<String>,
    RustmoteError,
>)
    ensures
        match found {
            Ok(password) => r == Ok::<Option<String>, RustmoteError>(Some(password)),
            Err(RustmoteError::NoStoredCredential { .. }) => r == Ok::<
                Option<String>,
                RustmoteError,
            >(None),
            Err(e) => r == Err::<Option<String>, RustmoteError>(e),
        },
{
    match found {
        Ok(password) => Ok(Some(password)),
        Err(RustmoteError::NoStoredCredential { .. }) => Ok(None),
        Err(e) => Err(e),
    }
}

/// Notes in the registry that a server was connected to.
pub fn mark_used(cfg: &mut Config, name: &str, at: Timestamp) -> (r: Result<(), CommandError>)
    ensures
        ({
            let i = server_at(old(cfg)@.servers, name@) as int;
            if i < old(cfg)@.servers.len() {
                r is Ok && final(cfg)@ == (ConfigView {
                    servers: old(cfg)@.servers.update(
                        i,
                        RemoteServer { last_used: Some(at), ..old(cfg)@.servers[i] },
                    ),
                    ..old(cfg)@
                })
            } else {
                *final(cfg) == *old(cfg) && (r matches Err(e) && e@ == (CommandError::Wrapped {
                    context: "updating server last_used"@,
                    cause: RustmoteError::UnknownServer(name@),
                }))
            }
        }),
{
    let ghost before = cfg@;
    proof {
        lemma_server_at(before.servers, name@);
    }
    let mark = |s: &mut RemoteServer|
        ensures
            *final(s) == (RemoteServer { last_used: Some(at), ..*old(s) }),
        {
            s.last_used = Some(at);
        };
    match cfg.update_server(name, mark) {
        Ok(_) => {
            proof {
                let i = server_at(before.servers, name@) as int;
                assert(cfg@.servers =~= before.servers.update(
                    i,
                    RemoteServer { last_used: Some(at), ..before.servers[i] },
                ));
            }
            Ok(())
        },
        Err(e) => Err(
            CommandError::Wrapped { context: "updating server last_used".to_owned(), cause: e },
        ),
    }
}

/// What is said of a host key that was pinned.
pub fn pinned_message(host: &str, port: u16) -> (r: String)
    ensures
        r@ == "pinned new host key for "@ + host@ + ":"@ + decimal(port as nat)
            + " (TOFU first use)"@,
{
    let number = text_decimal(port as u64);
    let mut text = concat3("pinned new host key for ", host, ":");
    text.push_str(number.as_str());
    text.push_str(" (TOFU first use)");
    text
}

/// What is said of a tunnel that is up.
pub fn tunnel_message(local_port: u16, host: &str, relay_port: u16, target: &str) -> (r: String)
    ensures
        r@ == "tunnel up: 127.0.0.1:"@ + decimal(local_port as nat) + " -> "@ + host@ + ":"@
            + decimal(relay_port as nat) + " (target "@ + target@ + ")"@,
{
    let local = text_decimal(local_port as u64);
    let relay = text_decimal(relay_port as u64);
    let mut text = concat3("tunnel up: 127.0.0.1:", local.as_str(), " -> ");
    text.push_str(host);
    text.push_str(":");
    text.push_str(relay.as_str());
    text.push_str(" (target ");
    text.push_str(target);
    text.push_str(")");
    text
}

/// Whether the command has succeeded, by how the viewer exited.
pub fn viewer_exited(success: bool, status: &str) -> (r: Result<(), CommandError>)
    ensures
        success ==> r is Ok,
        !success ==> (r matches Err(e) && e@ == CommandError::Message(
            "RustDesk viewer exited with "@ + status@ + "; tunnel has been torn down"@,
        )),
{
    if success {
        Ok(())
    } else {
        Err(
            CommandError::Message(
                concat3(
                    "RustDesk viewer exited with ",
                    status,
                    "; tunnel has been torn down",
                ),
            ),
        )
    }
}

// ---------------------------------------------------------------------------------------------
// What holds of a connection
// ---------------------------------------------------------------------------------------------

/// A connection goes through the server that the user names, whatever else there is. Where the user
/// names none, it goes through the server of the target, whatever the default is. The default
/// counts only where neither names one, and where there is no default either, no server is found.
pub proof fn servers_are_chosen_in_order(
    named: Option<&str>,
    matched: Option<&Target>,
    cfg: &Config,
    r: Result<String, CommandError>,
)
    requires
        call_ensures(resolve_via_name, (named, matched, cfg), r),
    ensures
        named matches Some(name) ==> (r matches Ok(server) && server@ == name@),
        named is None && matched is Some && matched->0.via_server is Some ==> (r matches Ok(server)
            && server@ == matched->0.via_server->0@),
        named is None && (matched is None || matched->0.via_server is None) ==> {
            match cfg.general.default_server {
                Some(name) => r matches Ok(server) && server@ == name@,
                None => r is Err,
            }
        },
{
}

proof fn lemma_label_at(targets: Seq<TargetView>, label: Seq<char>)
    ensures
        label_at(targets, label) <= targets.len(),
        label_at(targets, label) < targets.len() ==> targets[label_at(
            targets,
            label,
        ) as int].label == Some(label),
        forall|j: int|
            0 <= j < label_at(targets, label) ==> (#[trigger] targets[j]).label != Some(label),
    decreases targets.len(),
{
    if targets.len() > 0 && targets[0].label != Some(label) {
        lemma_label_at(targets.skip(1), label);
        assert forall|j: int| 0 <= j < label_at(targets, label) implies (
        #[trigger] targets[j]).label != Some(label) by {
            if j > 0 {
                assert(targets.skip(1)[j - 1] == targets[j]);
            }
        }
    }
}

/// Whether a target is the one that a text means: the first whose id it is, or, where it is the id
/// of none, the first whose label it is.
pub open spec fn is_meant(targets: Seq<TargetView>, arg: Seq<char>, at: int) -> bool {
    &&& 0 <= at < targets.len()
    &&& {
        ||| targets[at].id == arg && forall|j: int| 0 <= j < at ==> (#[trigger] targets[j]).id != arg
        ||| {
            &&& forall|j: int| 0 <= j < targets.len() ==> (#[trigger] targets[j]).id != arg
            &&& targets[at].label == Some(arg)
            &&& forall|j: int| 0 <= j < at ==> (#[trigger] targets[j]).label != Some(arg)
        }
    }
}

/// Whether a text is neither the id nor the label of a target.
pub open spec fn is_unregistered(targets: Seq<TargetView>, arg: Seq<char>) -> bool {
    forall|j: int|
        0 <= j < targets.len() ==> (#[trigger] targets[j]).id != arg && targets[j].label != Some(arg)
}

proof fn lemma_meant(targets: Seq<TargetView>, arg: Seq<char>)
    ensures
        ({
            let by_id = target_at(targets, arg) as int;
            let by_label = label_at(targets, arg) as int;
            &&& by_id < targets.len() ==> is_meant(targets, arg, by_id)
            &&& by_id >= targets.len() && by_label < targets.len() ==> is_meant(
                targets,
                arg,
                by_label,
            )
            &&& by_id >= targets.len() && by_label >= targets.len() ==> is_unregistered(
                targets,
                arg,
            )
        }),
{
    lemma_target_at(targets, arg);
    lemma_label_at(targets, arg);
}

/// A text means the first target whose id it is, else the first whose label it is, else the bare
/// id. An id comes before a label. What is found is a valid id, and else there is a failure.
pub proof fn targets_are_found_by_id_then_label(
    cfg: &Config,
    arg: &str,
    r: Result<(TargetId, Option<Target>), CommandError>,
)
    requires
        call_ensures(resolve_target, (cfg, arg), r),
    ensures
        match r {
            Ok((id, Some(t))) => exists|at: int|
                {
                    &&& #[trigger] is_meant(cfg@.targets, arg@, at)
                    &&& cfg@.targets[at] == t@
                    &&& id@ == t.id@
                    &&& is_target_id(id@)
                },
            Ok((id, None)) => is_unregistered(cfg@.targets, arg@) && id@ == arg@ && is_target_id(
                id@,
            ),
            Err(_) => {
                ||| is_unregistered(cfg@.targets, arg@) && !is_target_id(arg@)
                ||| exists|at: int| #[trigger]
                    is_meant(cfg@.targets, arg@, at) && !is_target_id(cfg@.targets[at].id)
            },
        },
{
    lemma_meant(cfg@.targets, arg@);
}

/// Whether a server of a registry is the first with a name.
pub open spec fn is_named(servers: Seq<ServerView>, name: Seq<char>, at: int) -> bool {
    &&& 0 <= at < servers.len()
    &&& servers[at].name == name
    &&& forall|j: int| 0 <= j < at ==> (#[trigger] servers[j]).name != name
}

/// Which server a target that was asked for goes through, where one is named somewhere.
pub open spec fn goes_through(cfg: ConfigView, args: &ConnectArgs, name: Seq<char>) -> bool {
    match args.via {
        Some(given) => name == given@,
        None => {
            ||| exists|at: int| #[trigger]
                is_meant(cfg.targets, args.target@, at) && cfg.targets[at].via_server == Some(name)
            ||| {
                &&& cfg.general.default_server == Some(name)
                &&& is_unregistered(cfg.targets, args.target@) || exists|at: int| #[trigger]
                    is_meant(cfg.targets, args.target@, at) && cfg.targets[at].via_server is None
            }
        },
    }
}

/// A connection that is planned reaches the target that was meant, through the server that the user
/// names, else the target's own, else the default. That server is a registered one with all that
/// the registry says of it, but for the user where another is given.
pub proof fn connections_reach_the_target_through_its_server(
    cfg: &Config,
    args: &ConnectArgs,
    r: Result<ConnectPlan, CommandError>,
)
    requires
        call_ensures(plan_connect, (cfg, args), r),
    ensures
        r matches Ok(plan) ==> {
            let server = plan.server@;
            &&& is_target_id(plan.target@)
            &&& is_unregistered(cfg@.targets, args.target@) && plan.target@ == args.target@
                || exists|at: int| #[trigger]
                is_meant(cfg@.targets, args.target@, at) && plan.target@ == cfg@.targets[at].id
            &&& goes_through(cfg@, args, plan.via_name@)
            &&& exists|at: int|
                {
                    let registered = cfg@.servers[at];
                    &&& #[trigger] is_named(cfg@.servers, plan.via_name@, at)
                    &&& server.name == registered.name
                    &&& server.host == registered.host
                    &&& server.ssh_port == registered.ssh_port
                    &&& server.relay_port == registered.relay_port
                    &&& server.relay_key == registered.relay_key
                    &&& server.created_at == registered.created_at
                    &&& server.last_used == registered.last_used
                    &&& args.user matches Some(user) ==> server.ssh_user == user@
                    &&& args.user is None ==> server.ssh_user == registered.ssh_user
                }
        },
{
    lemma_meant(cfg@.targets, args.target@);
    if let Ok(plan) = r {
        lemma_server_at(cfg@.servers, plan.via_name@);
        let at = server_at(cfg@.servers, plan.via_name@) as int;
        assert(is_named(cfg@.servers, plan.via_name@, at));
    }
}

/// A connection is planned wherever the target is a valid id, a server is named somewhere, and that
/// name is a registered server's.
pub proof fn connections_are_planned_where_they_can_be(
    cfg: &Config,
    args: &ConnectArgs,
    r: Result<ConnectPlan, CommandError>,
    name: Seq<char>,
    at: int,
)
    requires
        call_ensures(plan_connect, (cfg, args), r),
        goes_through(cfg@, args, name),
        is_named(cfg@.servers, name, at),
        is_unregistered(cfg@.targets, args.target@) ==> is_target_id(args.target@),
        forall|i: int|
            0 <= i < cfg@.targets.len() ==> is_target_id((#[trigger] cfg@.targets[i]).id),
    ensures
        r is Ok,
{
    lemma_meant(cfg@.targets, args.target@);
    lemma_meant_one(cfg@.targets, args.target@);
    lemma_server_at(cfg@.servers, name);
    assert(at == server_at(cfg@.servers, name));
}

proof fn lemma_meant_one(targets: Seq<TargetView>, arg: Seq<char>)
    ensures
        forall|a: int, b: int|
            #![trigger is_meant(targets, arg, a), is_meant(targets, arg, b)]
            is_meant(targets, arg, a) && is_meant(targets, arg, b) ==> a == b,
        forall|a: int| #[trigger] is_meant(targets, arg, a) ==> !is_unregistered(targets, arg),
{
    assert forall|a: int, b: int|
        #![trigger is_meant(targets, arg, a), is_meant(targets, arg, b)]
        is_meant(targets, arg, a) && is_meant(targets, arg, b) implies a == b by {
        assert(targets[a].id == targets[a].id && targets[b].id == targets[b].id);
    }
}

/// A login asks no one for a password exactly where a private key stands in one of the usual
/// places, which are `id_ed25519` and `id_rsa` in the directory `.ssh` of the user; else it asks
/// the store, for the server's name and the user on it.
pub proof fn passwords_are_asked_for_without_a_key(
    style: PathStyle,
    server: &RemoteServer,
    home: Option<&str>,
    files: &Vec<String>,
    r: PasswordSource,
)
    requires
        call_ensures(resolve_password, (style, server, home, files), r),
    ensures
        ({
            let ssh = local_join(style, home->0@, ".ssh"@);
            let there = home is Some && (views(files@).contains(
                local_join(style, ssh, "id_ed25519"@),
            ) || views(files@).contains(local_join(style, ssh, "id_rsa"@)));
            match r {
                PasswordSource::NoOne => there,
                PasswordSource::Store { server: name, user } => !there && name@ == server.name@
                    && user@ == server.ssh_user@,
            }
        }),
{
}

/// To note that a server was connected to changes nothing of the registry but the time at which
/// that server was last used.
pub proof fn noting_a_use_changes_one_time(
    cfg: &mut Config,
    name: &str,
    at: Timestamp,
    r: Result<(), CommandError>,
)
    requires
        call_ensures(mark_used, (cfg, name, at), r),
    ensures
        final(cfg)@.general == old(cfg)@.general,
        final(cfg)@.targets == old(cfg)@.targets,
        final(cfg)@.servers.len() == old(cfg)@.servers.len(),
        forall|i: int|
            0 <= i < old(cfg)@.servers.len() ==> {
                let server = #[trigger] final(cfg)@.servers[i];
                if is_named(old(cfg)@.servers, name@, i) {
                    server.last_used == Some(at) && server == (RemoteServer {
                        last_used: server.last_used,
                        ..old(cfg)@.servers[i]
                    })
                } else {
                    server == old(cfg)@.servers[i]
                }
            },
        r is Ok <==> exists|i: int| #[trigger] is_named(old(cfg)@.servers, name@, i),
{
    lemma_server_at(cfg@.servers, name@);
    let i = server_at(cfg@.servers, name@) as int;
    if i < cfg@.servers.len() {
        assert(is_named(cfg@.servers, name@, i));
    }
}

} // verus!
