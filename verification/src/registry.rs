//! The servers and targets that the user registered.
use crate::config::{Config, ConfigView};
use crate::error::RustmoteError;
use crate::net::IpAddr;
use crate::target::{Target, TargetView};
use crate::text::{
    char_is_alphanumeric, chars_of, is_alphanumeric, lemma_views_push, opt_view, text_eq, views,
};
use crate::time::Timestamp;
use vstd::prelude::*;

verus! {

/// A registered server: an SSH host that also runs the relay.
#[derive(Debug, PartialEq, Eq)]
pub struct RemoteServer<T = String> {
    /// The name that the user gave it; case matters.
    pub name: T,
    pub host: IpAddr,
    pub ssh_port: u16,
    pub ssh_user: T,
    pub relay_port: u16,
    /// The relay's public key, once the relay is installed.
    pub relay_key: Option<T>,
    /// When it was registered.
    pub created_at: Timestamp,
    /// When it was last connected to.
    pub last_used: Option<Timestamp>,
}

/// The view of a [`RemoteServer`].
pub type ServerView = RemoteServer<Seq<char>>;

impl View for RemoteServer {
    type V = RemoteServer<Seq<char>>;

    open spec fn view(&self) -> RemoteServer<Seq<char>> {
        RemoteServer {
            name: self.name@,
            host: self.host,
            ssh_port: self.ssh_port,
            ssh_user: self.ssh_user@,
            relay_port: self.relay_port,
            relay_key: opt_view(self.relay_key),
            created_at: self.created_at,
            last_used: self.last_used,
        }
    }
}

impl Clone for RemoteServer {
    fn clone(&self) -> (r: RemoteServer)
        ensures
            r == *self,
    {
        RemoteServer {
            name: self.name.clone(),
            host: self.host,
            ssh_port: self.ssh_port,
            ssh_user: self.ssh_user.clone(),
            relay_port: self.relay_port,
            relay_key: self.relay_key.clone(),
            created_at: self.created_at,
            last_used: self.last_used,
        }
    }
}

/// The characters of a server's name.
pub open spec fn is_name_char(c: char) -> bool {
    is_alphanumeric(c) || c == '_' || c == '-'
}

/// A server's name: 1 to 64 letters, digits, underscores and hyphens.
pub open spec fn is_server_name(name: Seq<char>) -> bool {
    &&& 1 <= name.len() <= 64
    &&& forall|i: int| 0 <= i < name.len() ==> is_name_char(#[trigger] name[i])
}

/// A server of which nothing but how it is reached is known.
pub open spec fn bare_server(
    name: Seq<char>,
    host: IpAddr,
    ssh_user: Seq<char>,
    ssh_port: u16,
    relay_port: u16,
    created_at: Timestamp,
) -> ServerView {
    RemoteServer {
        name,
        host,
        ssh_port,
        ssh_user,
        relay_port,
        relay_key: None,
        created_at,
        last_used: None,
    }
}

impl RemoteServer {
    /// The SSH port where none is given.
    pub const DEFAULT_SSH_PORT: u16 = 22;

    /// The relay's port where none is given.
    pub const DEFAULT_RELAY_PORT: u16 = 21116;

    /// Tests a server's name.
    pub fn validate_name(name: &str) -> (r: Result<(), RustmoteError>)
        ensures
            r is Ok <==> is_server_name(name@),
            r matches Err(e) ==> e@ == RustmoteError::InvalidServerName(name@),
    {
        let chars = chars_of(name);
        if chars.len() == 0 || chars.len() > 64 {
            return Err(RustmoteError::InvalidServerName(name.to_owned()));
        }
        let mut i: usize = 0;
        while i < chars.len()
            invariant
                i <= chars@.len(),
                chars@ == name@,
                forall|j: int| 0 <= j < i ==> is_name_char(#[trigger] chars@[j]),
            decreases chars@.len() - i,
        {
            if !(char_is_alphanumeric(chars[i]) || chars[i] == '_' || chars[i] == '-') {
                assert(!is_name_char(name@[i as int]));
                return Err(RustmoteError::InvalidServerName(name.to_owned()));
            }
            i += 1;
        }
        Ok(())
    }

    /// A server that is registered at an instant.
    pub fn new_at(
        name: &str,
        host: IpAddr,
        ssh_user: &str,
        ssh_port: u16,
        relay_port: u16,
        created_at: Timestamp,
    ) -> (r: RemoteServer)
        ensures
            r@ == bare_server(name@, host, ssh_user@, ssh_port, relay_port, created_at),
    {
        RemoteServer {
            name: name.to_owned(),
            host,
            ssh_port,
            ssh_user: ssh_user.to_owned(),
            relay_port,
            relay_key: None,
            created_at,
            last_used: None,
        }
    }

    /// A server that is registered now.
    pub fn new(name: &str, host: IpAddr, ssh_user: &str, ssh_port: u16, relay_port: u16) -> (r:
        RemoteServer)
        ensures
            r@ == bare_server(name@, host, ssh_user@, ssh_port, relay_port, r.created_at),
    {
        RemoteServer::new_at(name, host, ssh_user, ssh_port, relay_port, Timestamp::now())
    }
}

/// The position of the first server with a name, or the number of servers where there is none.
pub open spec fn server_at(servers: Seq<ServerView>, name: Seq<char>) -> nat
    decreases servers.len(),
{
    if servers.len() == 0 || servers[0].name == name {
        0
    } else {
        1 + server_at(servers.skip(1), name)
    }
}

/// The position of the first target with an id, or the number of targets where there is none.
pub open spec fn target_at(targets: Seq<TargetView>, id: Seq<char>) -> nat
    decreases targets.len(),
{
    if targets.len() == 0 || targets[0].id == id {
        0
    } else {
        1 + target_at(targets.skip(1), id)
    }
}

/// What `server_at` says of the servers up to it.
pub proof fn lemma_server_at(servers: Seq<ServerView>, name: Seq<char>)
    ensures
        server_at(servers, name) <= servers.len(),
        server_at(servers, name) < servers.len() ==> servers[server_at(
            servers,
            name,
        ) as int].name == name,
        forall|j: int| 0 <= j < server_at(servers, name) ==> (#[trigger] servers[j]).name != name,
    decreases servers.len(),
{
    if servers.len() > 0 && servers[0].name != name {
        lemma_server_at(servers.skip(1), name);
        assert forall|j: int| 0 <= j < server_at(servers, name) implies (
        #[trigger] servers[j]).name != name by {
            if j > 0 {
                assert(servers.skip(1)[j - 1] == servers[j]);
            }
        }
    }
}

/// What `target_at` says of the targets up to it.
pub proof fn lemma_target_at(targets: Seq<TargetView>, id: Seq<char>)
    ensures
        target_at(targets, id) <= targets.len(),
        target_at(targets, id) < targets.len() ==> targets[target_at(targets, id) as int].id == id,
        forall|j: int| 0 <= j < target_at(targets, id) ==> (#[trigger] targets[j]).id != id,
    decreases targets.len(),
{
    if targets.len() > 0 && targets[0].id != id {
        lemma_target_at(targets.skip(1), id);
        assert forall|j: int| 0 <= j < target_at(targets, id) implies (#[trigger] targets[j]).id
            != id by {
            if j > 0 {
                assert(targets.skip(1)[j - 1] == targets[j]);
            }
        }
    }
}

impl Config {
    /// All servers, in the order in which they were registered.
    pub fn servers(&self) -> (r: &[RemoteServer])
        ensures
            r@ == self.servers@,
    {
        self.servers.as_slice()
    }

    /// All targets, in the order in which they were registered.
    pub fn targets(&self) -> (r: &[Target])
        ensures
            r@ == self.targets@,
    {
        self.targets.as_slice()
    }

    fn find_server(&self, name: &str) -> (r: usize)
        ensures
            r == server_at(self@.servers, name@),
            r <= self.servers@.len(),
    {
        let mut i: usize = 0;
        assert(self@.servers.skip(0) =~= self@.servers);
        while i < self.servers.len()
            invariant
                i <= self.servers@.len(),
                server_at(self@.servers, name@) == i + server_at(
                    self@.servers.skip(i as int),
                    name@,
                ),
            decreases self.servers@.len() - i,
        {
            assert(self@.servers.skip(i as int)[0] == self.servers@[i as int]@);
            assert(self@.servers.skip(i as int).skip(1) =~= self@.servers.skip(i + 1));
            if text_eq(self.servers[i].name.as_str(), name) {
                return i;
            }
            i += 1;
        }
        i
    }

    fn find_target(&self, id: &str) -> (r: usize)
        ensures
            r == target_at(self@.targets, id@),
            r <= self.targets@.len(),
    {
        let mut i: usize = 0;
        assert(self@.targets.skip(0) =~= self@.targets);
        while i < self.targets.len()
            invariant
                i <= self.targets@.len(),
                target_at(self@.targets, id@) == i + target_at(self@.targets.skip(i as int), id@),
            decreases self.targets@.len() - i,
        {
            assert(self@.targets.skip(i as int)[0] == self.targets@[i as int]@);
            assert(self@.targets.skip(i as int).skip(1) =~= self@.targets.skip(i + 1));
            if text_eq(self.targets[i].id.as_str(), id) {
                return i;
            }
            i += 1;
        }
        i
    }

    /// The server with a name.
    pub fn get_server(&self, name: &str) -> (r: Result<&RemoteServer, RustmoteError>)
        ensures
            ({
                let at = server_at(self@.servers, name@) as int;
                if at < self@.servers.len() {
                    r matches Ok(s) && *s == self.servers@[at] && s@ == self@.servers[at]
                } else {
                    r matches Err(e) && e@ == RustmoteError::UnknownServer(name@)
                }
            }),
    {
        let at = self.find_server(name);
        if at < self.servers.len() {
            Ok(&self.servers[at])
        } else {
            Err(RustmoteError::UnknownServer(name.to_owned()))
        }
    }

    /// Registers a server, unless its name is taken.
    pub fn add_server(&mut self, server: RemoteServer) -> (r: Result<(), RustmoteError>)
        ensures
            if server_at(old(self)@.servers, server@.name) < old(self)@.servers.len() {
                *final(self) == *old(self) && (r matches Err(e) && e@
                    == RustmoteError::ServerAlreadyExists(server@.name))
            } else {
                r is Ok && final(self)@ == (ConfigView {
                    servers: old(self)@.servers.push(server@),
                    ..old(self)@
                })
            },
    {
        if self.find_server(server.name.as_str()) < self.servers.len() {
            return Err(RustmoteError::ServerAlreadyExists(server.name));
        }
        proof {
            lemma_views_push(self.servers@, server);
        }
        self.servers.push(server);
        Ok(())
    }

    /// Takes a server out of the registry.
    pub fn remove_server(&mut self, name: &str) -> (r: Result<RemoteServer, RustmoteError>)
        ensures
            ({
                let at = server_at(old(self)@.servers, name@) as int;
                if at < old(self)@.servers.len() {
                    (r matches Ok(s) && s@ == old(self)@.servers[at]) && final(self)@ == (
                    ConfigView {
                        servers: old(self)@.servers.remove(at),
                        ..old(self)@
                    })
                } else {
                    *final(self) == *old(self) && (r matches Err(e) && e@
                        == RustmoteError::UnknownServer(name@))
                }
            }),
    {
        let at = self.find_server(name);
        if at < self.servers.len() {
            let ghost before = self.servers@;
            let server = self.servers.remove(at);
            assert(views(self.servers@) =~= views(before).remove(at as int));
            Ok(server)
        } else {
            Err(RustmoteError::UnknownServer(name.to_owned()))
        }
    }

    /// Changes a server in place.
    pub fn update_server<F: FnOnce(&mut RemoteServer)>(&mut self, name: &str, mutate: F) -> (r:
        Result<(), RustmoteError>)
        requires
            forall|s: &mut RemoteServer| call_requires(mutate, (s,)),
        ensures
            final(self).general == old(self).general,
            final(self).targets == old(self).targets,
            ({
                let at = server_at(old(self)@.servers, name@) as int;
                if at < old(self)@.servers.len() {
                    r is Ok && exists|s: &mut RemoteServer|
                        *s == old(self).servers@[at] && call_ensures(mutate, (s,), ())
                            && final(self).servers@ == old(self).servers@.update(at, *final(s))
                } else {
                    *final(self) == *old(self) && (r matches Err(e) && e@
                        == RustmoteError::UnknownServer(name@))
                }
            }),
    {
        let at = self.find_server(name);
        if at < self.servers.len() {
            mutate(&mut self.servers[at]);
            Ok(())
        } else {
            Err(RustmoteError::UnknownServer(name.to_owned()))
        }
    }

    /// The target with an id.
    pub fn get_target(&self, id: &str) -> (r: Result<&Target, RustmoteError>)
        ensures
            ({
                let at = target_at(self@.targets, id@) as int;
                if at < self@.targets.len() {
                    r matches Ok(t) && *t == self.targets@[at] && t@ == self@.targets[at]
                } else {
                    r matches Err(e) && e@ == RustmoteError::UnknownTarget(id@)
                }
            }),
    {
        let at = self.find_target(id);
        if at < self.targets.len() {
            Ok(&self.targets[at])
        } else {
            Err(RustmoteError::UnknownTarget(id.to_owned()))
        }
    }

    /// Registers a target, unless its id is taken.
    pub fn add_target(&mut self, target: Target) -> (r: Result<(), RustmoteError>)
        ensures
            if target_at(old(self)@.targets, target@.id) < old(self)@.targets.len() {
                *final(self) == *old(self) && (r matches Err(e) && e@
                    == RustmoteError::TargetAlreadyExists(target@.id))
            } else {
                r is Ok && final(self)@ == (ConfigView {
                    targets: old(self)@.targets.push(target@),
                    ..old(self)@
                })
            },
    {
        if self.find_target(target.id.as_str()) < self.targets.len() {
            return Err(RustmoteError::TargetAlreadyExists(target.id));
        }
        proof {
            lemma_views_push(self.targets@, target);
        }
        self.targets.push(target);
        Ok(())
    }

    /// Takes a target out of the registry.
    pub fn remove_target(&mut self, id: &str) -> (r: Result<Target, RustmoteError>)
        ensures
            ({
                let at = target_at(old(self)@.targets, id@) as int;
                if at < old(self)@.targets.len() {
                    (r matches Ok(t) && t@ == old(self)@.targets[at]) && final(self)@ == (
                    ConfigView {
                        targets: old(self)@.targets.remove(at),
                        ..old(self)@
                    })
                } else {
                    *final(self) == *old(self) && (r matches Err(e) && e@
                        == RustmoteError::UnknownTarget(id@))
                }
            }),
    {
        let at = self.find_target(id);
        if at < self.targets.len() {
            let ghost before = self.targets@;
            let target = self.targets.remove(at);
            assert(views(self.targets@) =~= views(before).remove(at as int));
            Ok(target)
        } else {
            Err(RustmoteError::UnknownTarget(id.to_owned()))
        }
    }
}

// ---------------------------------------------------------------------------------------------
// What holds of registering and removing
// ---------------------------------------------------------------------------------------------

/// Whether no two servers have one name.
pub open spec fn distinct_names(servers: Seq<ServerView>) -> bool {
    forall|i: int, j: int|
        0 <= i < j < servers.len() ==> (#[trigger] servers[i]).name != (#[trigger] servers[j]).name
}

/// Whether no two targets have one id.
pub open spec fn distinct_ids(targets: Seq<TargetView>) -> bool {
    forall|i: int, j: int|
        0 <= i < j < targets.len() ==> (#[trigger] targets[i]).id != (#[trigger] targets[j]).id
}

/// A server whose name is free is found under it once it is registered; names stay distinct, every
/// other name is found where it was, and to remove the server undoes the registration.
pub proof fn registered_servers_are_found(
    servers: Seq<ServerView>,
    server: ServerView,
    other: Seq<char>,
)
    requires
        server_at(servers, server.name) >= servers.len(),
    ensures
        server_at(servers.push(server), server.name) == servers.len(),
        distinct_names(servers) ==> distinct_names(servers.push(server)),
        other != server.name && server_at(servers, other) < servers.len() ==> server_at(
            servers.push(server),
            other,
        ) == server_at(servers, other),
        servers.push(server).remove(servers.len() as int) == servers,
{
    let more = servers.push(server);
    lemma_server_at(servers, server.name);
    lemma_server_at(servers, other);
    lemma_server_at(more, server.name);
    lemma_server_at(more, other);
    assert(more[servers.len() as int] == server);
    assert(forall|j: int| 0 <= j < servers.len() ==> more[j] == servers[j]);
    assert(more.remove(servers.len() as int) =~= servers);
}

/// Where names are distinct, a removed server is not found any more, and names stay distinct.
pub proof fn removed_servers_are_gone(servers: Seq<ServerView>, name: Seq<char>)
    requires
        distinct_names(servers),
        server_at(servers, name) < servers.len(),
    ensures
        ({
            let left = servers.remove(server_at(servers, name) as int);
            server_at(left, name) == left.len() && distinct_names(left)
        }),
{
    let at = server_at(servers, name) as int;
    lemma_server_at(servers, name);
    let left = servers.remove(at);
    lemma_server_at(left, name);
    assert forall|i: int| 0 <= i < left.len() implies (#[trigger] left[i]).name != name by {
        if i < at {
            assert(left[i] == servers[i]);
        } else {
            assert(left[i] == servers[i + 1]);
        }
    }
    assert forall|i: int, j: int| 0 <= i < j < left.len() implies (#[trigger] left[i]).name != (
    #[trigger] left[j]).name by {
        let x = if i < at { i } else { i + 1 };
        let y = if j < at { j } else { j + 1 };
        assert(left[i] == servers[x] && left[j] == servers[y]);
    }
}

/// A target whose id is free is found under it once it is registered; ids stay distinct, every
/// other id is found where it was, and to remove the target undoes the registration.
pub proof fn registered_targets_are_found(
    targets: Seq<TargetView>,
    target: TargetView,
    other: Seq<char>,
)
    requires
        target_at(targets, target.id) >= targets.len(),
    ensures
        target_at(targets.push(target), target.id) == targets.len(),
        distinct_ids(targets) ==> distinct_ids(targets.push(target)),
        other != target.id && target_at(targets, other) < targets.len() ==> target_at(
            targets.push(target),
            other,
        ) == target_at(targets, other),
        targets.push(target).remove(targets.len() as int) == targets,
{
    let more = targets.push(target);
    lemma_target_at(targets, target.id);
    lemma_target_at(targets, other);
    lemma_target_at(more, target.id);
    lemma_target_at(more, other);
    assert(more[targets.len() as int] == target);
    assert(forall|j: int| 0 <= j < targets.len() ==> more[j] == targets[j]);
    assert(more.remove(targets.len() as int) =~= targets);
}

/// Where ids are distinct, a removed target is not found any more, and ids stay distinct.
pub proof fn removed_targets_are_gone(targets: Seq<TargetView>, id: Seq<char>)
    requires
        distinct_ids(targets),
        target_at(targets, id) < targets.len(),
    ensures
        ({
            let left = targets.remove(target_at(targets, id) as int);
            target_at(left, id) == left.len() && distinct_ids(left)
        }),
{
    let at = target_at(targets, id) as int;
    lemma_target_at(targets, id);
    let left = targets.remove(at);
    lemma_target_at(left, id);
    assert forall|i: int| 0 <= i < left.len() implies (#[trigger] left[i]).id != id by {
        if i < at {
            assert(left[i] == targets[i]);
        } else {
            assert(left[i] == targets[i + 1]);
        }
    }
    assert forall|i: int, j: int| 0 <= i < j < left.len() implies (#[trigger] left[i]).id != (
    #[trigger] left[j]).id by {
        let x = if i < at { i } else { i + 1 };
        let y = if j < at { j } else { j + 1 };
        assert(left[i] == targets[x] && left[j] == targets[y]);
    }
}

/// A server is found under its name: the first that has it, and none exactly where none has it.
pub proof fn servers_are_found_by_name(
    cfg: &Config,
    name: &str,
    r: Result<&RemoteServer, RustmoteError>,
)
    requires
        call_ensures(Config::get_server, (cfg, name), r),
    ensures
        match r {
            Ok(server) => exists|i: int|
                {
                    &&& 0 <= i < cfg.servers@.len()
                    &&& #[trigger] cfg.servers@[i] == *server
                    &&& server.name@ == name@
                    &&& forall|j: int| 0 <= j < i ==> (#[trigger] cfg.servers@[j]).name@ != name@
                },
            Err(e) => e@ == RustmoteError::UnknownServer(name@) && forall|j: int|
                0 <= j < cfg.servers@.len() ==> (#[trigger] cfg.servers@[j]).name@ != name@,
        },
{
    lemma_server_at(cfg@.servers, name@);
    let at = server_at(cfg@.servers, name@) as int;
    assert forall|j: int| 0 <= j < cfg.servers@.len() && j < at implies (
    #[trigger] cfg.servers@[j]).name@ != name@ by {
        assert(cfg@.servers[j] == cfg.servers@[j]@);
    }
    if at < cfg.servers@.len() {
        assert(cfg@.servers[at] == cfg.servers@[at]@);
    }
}

/// A target is found under its id: the first that has it, and none exactly where none has it.
pub proof fn targets_are_found_by_id(cfg: &Config, id: &str, r: Result<&Target, RustmoteError>)
    requires
        call_ensures(Config::get_target, (cfg, id), r),
    ensures
        match r {
            Ok(target) => exists|i: int|
                {
                    &&& 0 <= i < cfg.targets@.len()
                    &&& #[trigger] cfg.targets@[i] == *target
                    &&& target.id@ == id@
                    &&& forall|j: int| 0 <= j < i ==> (#[trigger] cfg.targets@[j]).id@ != id@
                },
            Err(e) => e@ == RustmoteError::UnknownTarget(id@) && forall|j: int|
                0 <= j < cfg.targets@.len() ==> (#[trigger] cfg.targets@[j]).id@ != id@,
        },
{
    lemma_target_at(cfg@.targets, id@);
    let at = target_at(cfg@.targets, id@) as int;
    assert forall|j: int| 0 <= j < cfg.targets@.len() && j < at implies (
    #[trigger] cfg.targets@[j]).id@ != id@ by {
        assert(cfg@.targets[j] == cfg.targets@[j]@);
    }
    if at < cfg.targets@.len() {
        assert(cfg@.targets[at] == cfg.targets@[at]@);
    }
}

/// A server that is registered has what it is given, has no key of a relay yet and was never used.
pub proof fn new_servers_have_what_they_are_given(
    name: &str,
    host: IpAddr,
    ssh_user: &str,
    ssh_port: u16,
    relay_port: u16,
    created_at: Timestamp,
    r: RemoteServer,
)
    requires
        call_ensures(
            RemoteServer::new_at,
            (name, host, ssh_user, ssh_port, relay_port, created_at),
            r,
        ),
    ensures
        r.name@ == name@,
        r.host == host,
        r.ssh_user@ == ssh_user@,
        r.ssh_port == ssh_port,
        r.relay_port == relay_port,
        r.created_at == created_at,
        r.relay_key is None,
        r.last_used is None,
{
}

/// The name of a server has one to 64 characters, each a letter, a digit, an underscore or a
/// hyphen.
pub proof fn names_of_servers_are_plain(name: &str, r: Result<(), RustmoteError>)
    requires
        call_ensures(RemoteServer::validate_name, (name,), r),
    ensures
        r is Ok <==> 1 <= name@.len() <= 64 && forall|i: int|
            0 <= i < name@.len() ==> {
                let c = #[trigger] name@[i];
                'a' <= c <= 'z' || 'A' <= c <= 'Z' || '0' <= c <= '9' || c == '_' || c == '-'
            },
        r matches Err(e) ==> e@ == RustmoteError::InvalidServerName(name@),
{
    if forall|i: int|
        0 <= i < name@.len() ==> {
            let c = #[trigger] name@[i];
            'a' <= c <= 'z' || 'A' <= c <= 'Z' || '0' <= c <= '9' || c == '_' || c == '-'
        } {
        assert forall|i: int| 0 <= i < name@.len() implies is_name_char(#[trigger] name@[i]) by {}
    }
}

} // verus!
