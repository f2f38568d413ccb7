//! Registering, showing and scanning for targets.
use crate::cli::{or_dash, text_or_dash, wrapped, CommandError, CommandErrorView};
use crate::config::{Config, ConfigView};
use crate::discovery::{DiscoveredHost, Discovery, HostView, DEFAULT_SCAN_TIMEOUT};
use crate::error::RustmoteError;
use crate::net::{parsed_network, Cidr, IpAddr};
use crate::registry::{lemma_server_at, lemma_target_at, server_at, target_at};
use crate::target::{Target, TargetView};
use crate::text::{concat3, opt_str, opt_to_owned, opt_view, views};
use crate::time::TimeSpan;
use crate::viewer::{is_target_id, TargetId};
use vstd::prelude::*;

verus! {

/// What is said where there is no target to list.
pub const NO_TARGETS: &'static str = "no targets registered (use `rustmote target add <id>`)";

/// What is said where a scan finds nothing.
pub const NO_HOSTS: &'static str = "no hosts found on scanned subnet";

/// The addresses of the registered servers.
pub fn known_addresses(cfg: &Config) -> (out: Vec<IpAddr>)
    ensures
        out@ == Seq::new(cfg@.servers.len(), |i: int| cfg@.servers[i].host),
{
    let ghost want = Seq::new(cfg@.servers.len(), |i: int| cfg@.servers[i].host);
    let mut out: Vec<IpAddr> = Vec::new();
    let mut i: usize = 0;
    while i < cfg.servers.len()
        invariant
            i <= cfg.servers@.len(),
            want == Seq::new(cfg@.servers.len(), |i: int| cfg@.servers[i].host),
            out@ == want.take(i as int),
        decreases cfg.servers@.len() - i,
    {
        assert(cfg@.servers[i as int] == cfg.servers@[i as int]@);
        out.push(cfg.servers[i].host);
        i += 1;
        assert(want.take(i as int) =~= want.take(i - 1).push(want[i - 1]));
    }
    assert(want.take(i as int) =~= want);
    out
}

/// What is said of a text that writes no network.
pub const NO_NETWORK: &'static str = "invalid IP address syntax";

/// The network that was read from what the user wrote, or that it writes none.
pub fn network_or_refusal(text: &str, network: Option<Cidr>) -> (r: Result<Cidr, CommandError>)
    ensures
        match network {
            Some(net) => r == Ok::<Cidr, CommandError>(net),
            None => r matches Err(e) && e@ == (CommandError::Explained {
                context: "parsing --cidr '"@ + text@ + "'"@,
                reason: NO_NETWORK@,
            }),
        },
{
    match network {
        Some(net) => Ok(net),
        None => Err(
            CommandError::Explained {
                context: concat3("parsing --cidr '", text, "'"),
                reason: NO_NETWORK.to_owned(),
            },
        ),
    }
}

/// How a scan is done that the user asked for: in the given network, if one is given, for the given
/// time or the default one, with the registered servers known.
pub fn plan_scan(cfg: &Config, cidr: Option<&str>, timeout: Option<u64>) -> (r: Result<
    Discovery,
    CommandError,
>)
    ensures
        match r {
            Ok(driver) => driver.known_servers@ == Seq::new(
                cfg@.servers.len(),
                |i: int| cfg@.servers[i].host,
            ) && driver.timeout.spec_nanos() == budget_nanos(timeout) && match cidr {
                Some(text) => driver.cidr matches Some(net) && parsed_network(text@) == Some(
                    (net.spec_addr(), net.spec_prefix_len()),
                ),
                None => driver.cidr is None,
            },
            Err(e) => cidr matches Some(text) && parsed_network(text@) is None && e@ == (
            CommandError::Explained {
                context: "parsing --cidr '"@ + text@ + "'"@,
                reason: NO_NETWORK@,
            }),
        },
{
    let driver = Discovery::new().with_known_servers(known_addresses(cfg));
    let budget = scan_budget(timeout);
    match cidr {
        Some(text) => match network_or_refusal(text, Cidr::parse(text)) {
            Ok(net) => Ok(driver.with_cidr(net).with_timeout(budget)),
            Err(e) => Err(e),
        },
        None => Ok(driver.with_timeout(budget)),
    }
}

/// How many nanoseconds a scan takes at most.
pub open spec fn budget_nanos(timeout: Option<u64>) -> int {
    match timeout {
        Some(secs) => secs * 1_000_000_000,
        None => DEFAULT_SCAN_TIMEOUT * 1_000_000_000,
    }
}

/// How long a scan takes at most: as many seconds as the user says, or the default.
pub fn scan_budget(timeout: Option<u64>) -> (r: TimeSpan)
    ensures
        r.spec_nanos() == budget_nanos(timeout),
{
    match timeout {
        Some(secs) => TimeSpan::from_secs(secs),
        None => TimeSpan::from_secs(DEFAULT_SCAN_TIMEOUT),
    }
}

/// The cells of a found host's row: address, name, hardware address, and whether it is a server.
pub open spec fn scan_row(h: HostView, ip: Seq<char>) -> Seq<Seq<char>> {
    seq![
        ip,
        or_dash(h.hostname),
        or_dash(h.mac),
        if h.is_known_server {
            "server"@
        } else {
            "—"@
        },
    ]
}

/// The cells of a found host's row; the address comes as text.
pub fn scan_cells(h: &DiscoveredHost, ip: &str) -> (out: Vec<String>)
    ensures
        views(out@) == scan_row(h@, ip@),
{
    let mut out: Vec<String> = Vec::new();
    out.push(ip.to_owned());
    out.push(text_or_dash(&h.hostname));
    out.push(text_or_dash(&h.mac));
    if h.is_known_server {
        out.push("server".to_owned());
    } else {
        out.push("—".to_owned());
    }
    assert(views(out@) =~= scan_row(h@, ip@));
    out
}

/// The cells of a target's row: id, label, server, address, and the day it was last seen.
pub open spec fn target_row(t: TargetView, ip: Option<Seq<char>>) -> Seq<Seq<char>> {
    seq![
        t.id,
        or_dash(t.label),
        or_dash(t.via_server),
        or_dash(ip),
        match t.last_seen {
            Some(at) => at.spec_day(),
            None => "—"@,
        },
    ]
}

/// The cells of a target's row in the list; the address comes as text.
pub fn list_cells(t: &Target, ip: &Option<String>) -> (out: Vec<String>)
    ensures
        views(out@) == target_row(t@, opt_view(*ip)),
{
    let seen = match t.last_seen {
        Some(at) => at.day(),
        None => "—".to_owned(),
    };
    let mut out: Vec<String> = Vec::new();
    out.push(t.id.clone());
    out.push(text_or_dash(&t.label));
    out.push(text_or_dash(&t.via_server));
    out.push(text_or_dash(ip));
    out.push(seen);
    assert(views(out@) =~= target_row(t@, opt_view(*ip)));
    out
}

/// Tests whether a text can be the id of a target.
pub fn check_id(id: &str) -> (r: Result<(), CommandError>)
    ensures
        if is_target_id(id@) {
            r is Ok
        } else {
            r matches Err(e) && e@ == (CommandError::Wrapped {
                context: "validating target id against spec §3.5"@,
                cause: RustmoteError::InvalidTargetId(id@),
            })
        },
{
    match TargetId::new(id) {
        Ok(_) => Ok(()),
        Err(e) => Err(
            CommandError::Wrapped {
                context: "validating target id against spec §3.5".to_owned(),
                cause: e,
            },
        ),
    }
}

/// Why a target cannot be registered: its id is none, or the server that it names is not
/// registered, or its id is taken. The first that holds counts.
pub open spec fn target_refusal(cfg: ConfigView, id: Seq<char>, via: Option<Seq<char>>) -> Option<
    CommandErrorView,
> {
    if !is_target_id(id) {
        Some(
            CommandError::Wrapped {
                context: "validating target id against spec §3.5"@,
                cause: RustmoteError::InvalidTargetId(id),
            },
        )
    } else if via is Some && server_at(cfg.servers, via->0) >= cfg.servers.len() {
        Some(
            CommandError::Wrapped {
                context: "--via '"@ + via->0 + "' is not in the registry"@,
                cause: RustmoteError::UnknownServer(via->0),
            },
        )
    } else if target_at(cfg.targets, id) < cfg.targets.len() {
        Some(
            CommandError::Wrapped {
                context: "adding target to registry"@,
                cause: RustmoteError::TargetAlreadyExists(id),
            },
        )
    } else {
        None
    }
}

/// Registers a target.
pub fn register(cfg: &mut Config, id: &str, label: Option<&str>, via: Option<&str>) -> (r: Result<
    (),
    CommandError,
>)
    ensures
        match target_refusal(old(cfg)@, id@, opt_str(via)) {
            Some(e) => *final(cfg) == *old(cfg) && (r matches Err(x) && x@ == e),
            None => r is Ok && final(cfg)@ == (ConfigView {
                targets: old(cfg)@.targets.push(
                    Target {
                        id: id@,
                        ip: None,
                        label: opt_str(label),
                        via_server: opt_str(via),
                        last_seen: None,
                    },
                ),
                ..old(cfg)@
            }),
        },
{
    match check_id(id) {
        Ok(_) => {},
        Err(e) => {
            return Err(e);
        },
    }
    match via {
        Some(server) => match cfg.get_server(server) {
            Ok(_) => {},
            Err(e) => {
                return Err(
                    CommandError::Wrapped {
                        context: concat3("--via '", server, "' is not in the registry"),
                        cause: e,
                    },
                );
            },
        },
        None => {},
    }
    let target = Target {
        id: id.to_owned(),
        ip: None,
        label: opt_to_owned(label),
        via_server: opt_to_owned(via),
        last_seen: None,
    };
    wrapped(cfg.add_target(target), "adding target to registry")
}

/// Takes a target out of the registry.
pub fn unregister(cfg: &mut Config, id: &str) -> (r: Result<Target, CommandError>)
    ensures
        ({
            let at = target_at(old(cfg)@.targets, id@) as int;
            if at < old(cfg)@.targets.len() {
                (r matches Ok(t) && t@ == old(cfg)@.targets[at]) && final(cfg)@ == (ConfigView {
                    targets: old(cfg)@.targets.remove(at),
                    ..old(cfg)@
                })
            } else {
                *final(cfg) == *old(cfg) && (r matches Err(e) && e@ == (CommandError::Wrapped {
                    context: "removing target"@,
                    cause: RustmoteError::UnknownTarget(id@),
                }))
            }
        }),
{
    wrapped(cfg.remove_target(id), "removing target")
}

/// What is said of a target that was added or removed.
pub fn change_message(verb: &str, id: &str) -> (r: String)
    ensures
        r@ == verb@ + " target '"@ + id@ + "'"@,
{
    let mut text = concat3(verb, " target '", id);
    text.push_str("'");
    text
}

// ---------------------------------------------------------------------------------------------
// What holds of the commands
// ---------------------------------------------------------------------------------------------

/// A target is registered exactly where its id is a valid one, no target has it, and the server
/// that it names, if it names one, is registered. It then stands behind all others with that id,
/// label and server; all else stays as it is. A refusal changes nothing.
pub proof fn targets_are_registered_under_free_ids(
    cfg: &mut Config,
    id: &str,
    label: Option<&str>,
    server: Option<&str>,
    r: Result<(), CommandError>,
)
    requires
        call_ensures(register, (cfg, id, label, server), r),
    ensures
        ({
            let before = old(cfg)@;
            let after = final(cfg)@;
            let taken = exists|i: int|
                0 <= i < before.targets.len() && (#[trigger] before.targets[i]).id == id@;
            let reachable = server is None || exists|i: int|
                0 <= i < before.servers.len() && (#[trigger] before.servers[i]).name == server->0@;
            let target = after.targets.last();
            &&& r is Ok <==> is_target_id(id@) && reachable && !taken
            &&& r is Err ==> after == before
            &&& r is Ok ==> {
                &&& after.targets.len() == before.targets.len() + 1
                &&& after.targets.drop_last() == before.targets
                &&& target.id == id@
                &&& target.label == opt_str(label)
                &&& target.via_server == opt_str(server)
                &&& target.ip is None
                &&& target.last_seen is None
            }
            &&& after.servers == before.servers
            &&& after.general == before.general
        }),
{
    lemma_target_at(cfg@.targets, id@);
    if server is Some {
        lemma_server_at(cfg@.servers, server->0@);
    }
    let more = cfg@.targets.push(
        Target {
            id: id@,
            ip: None,
            label: opt_str(label),
            via_server: opt_str(server),
            last_seen: None,
        },
    );
    assert(more.drop_last() =~= cfg@.targets);
}

/// A target is taken out under its id: the first with that id is given back and is gone, and all
/// others stay, in their order. An unknown id changes nothing.
pub proof fn targets_are_removed_by_id(
    cfg: &mut Config,
    id: &str,
    r: Result<Target, CommandError>,
)
    requires
        call_ensures(unregister, (cfg, id), r),
    ensures
        ({
            let before = old(cfg)@;
            let after = final(cfg)@;
            &&& r is Err ==> after == before && forall|i: int|
                0 <= i < before.targets.len() ==> (#[trigger] before.targets[i]).id != id@
            &&& r matches Ok(gone) ==> exists|at: int|
                {
                    &&& 0 <= at < before.targets.len()
                    &&& #[trigger] before.targets[at] == gone@
                    &&& gone.id@ == id@
                    &&& after.targets == before.targets.take(at) + before.targets.skip(at + 1)
                    &&& forall|j: int| 0 <= j < at ==> (#[trigger] before.targets[j]).id != id@
                }
            &&& after.servers == before.servers
            &&& after.general == before.general
        }),
{
    lemma_target_at(cfg@.targets, id@);
    let at = target_at(cfg@.targets, id@) as int;
    if at < cfg@.targets.len() {
        assert(cfg@.targets[at].id == id@);
        assert(cfg@.targets.remove(at) =~= cfg@.targets.take(at) + cfg@.targets.skip(at + 1));
    }
}

/// A scan is planned exactly where no network is given or the given text writes one. It then scans
/// that network, for as many seconds as the user says, or nine, and knows the address of every
/// registered server and no other.
pub proof fn scans_are_planned_as_asked(
    cfg: &Config,
    cidr: Option<&str>,
    timeout: Option<u64>,
    r: Result<Discovery, CommandError>,
)
    requires
        call_ensures(plan_scan, (cfg, cidr, timeout), r),
    ensures
        r is Ok <==> cidr is None || parsed_network(cidr->0@) is Some,
        r matches Ok(scan) ==> {
            &&& cidr is None ==> scan.cidr is None
            &&& cidr matches Some(text) ==> (scan.cidr matches Some(net) && parsed_network(text@)
                == Some((net.spec_addr(), net.spec_prefix_len())))
            &&& timeout matches Some(secs) ==> scan.timeout.spec_nanos() == secs * 1_000_000_000
            &&& timeout is None ==> scan.timeout.spec_nanos() == 9_000_000_000
            &&& forall|ip: IpAddr|
                #![trigger scan.known_servers@.contains(ip)]
                scan.known_servers@.contains(ip) <==> exists|i: int|
                    0 <= i < cfg.servers@.len() && (#[trigger] cfg.servers@[i]).host == ip
        },
{
    if let Ok(scan) = r {
        assert forall|ip: IpAddr|
            #![trigger scan.known_servers@.contains(ip)]
            scan.known_servers@.contains(ip) <==> exists|i: int|
                0 <= i < cfg.servers@.len() && (#[trigger] cfg.servers@[i]).host == ip by {
            if scan.known_servers@.contains(ip) {
                let i = choose|i: int|
                    0 <= i < scan.known_servers@.len() && scan.known_servers@[i] == ip;
                assert(cfg@.servers[i] == cfg.servers@[i]@);
            }
            if exists|i: int| 0 <= i < cfg.servers@.len() && (#[trigger] cfg.servers@[i]).host
                == ip {
                let i = choose|i: int|
                    0 <= i < cfg.servers@.len() && (#[trigger] cfg.servers@[i]).host == ip;
                assert(cfg@.servers[i] == cfg.servers@[i]@);
                assert(scan.known_servers@[i] == ip);
            }
        }
    }
}

/// The row of a found host shows its address, its name, its hardware address and whether it is a
/// known server, with a dash for what is not known.
pub proof fn rows_show_their_host(h: &DiscoveredHost, ip: &str, r: Vec<String>)
    requires
        call_ensures(scan_cells, (h, ip), r),
    ensures
        r@.len() == 4,
        r@[0]@ == ip@,
        h.hostname matches Some(name) ==> r@[1]@ == name@,
        h.hostname is None ==> r@[1]@ == "—"@,
        h.mac matches Some(mac) ==> r@[2]@ == mac@,
        h.mac is None ==> r@[2]@ == "—"@,
        r@[3]@ == if h.is_known_server {
            "server"@
        } else {
            "—"@
        },
{
    let cells = views(r@);
    assert(cells == scan_row(h@, ip@));
    assert(cells.len() == 4);
    assert(cells[0] == r@[0]@ && cells[1] == r@[1]@ && cells[2] == r@[2]@ && cells[3] == r@[3]@);
}

/// The row of a target shows its id, its label, its server, its address and the day on which it was
/// last seen, with a dash for what is not known.
pub proof fn rows_show_their_target(t: &Target, ip: &Option<String>, r: Vec<String>)
    requires
        call_ensures(list_cells, (t, ip), r),
    ensures
        r@.len() == 5,
        r@[0]@ == t.id@,
        t.label matches Some(label) ==> r@[1]@ == label@,
        t.label is None ==> r@[1]@ == "—"@,
        t.via_server matches Some(server) ==> r@[2]@ == server@,
        t.via_server is None ==> r@[2]@ == "—"@,
        *ip matches Some(address) ==> r@[3]@ == address@,
        *ip is None ==> r@[3]@ == "—"@,
        t.last_seen matches Some(at) ==> r@[4]@ == at.spec_day(),
        t.last_seen is None ==> r@[4]@ == "—"@,
{
    let cells = views(r@);
    assert(cells == target_row(t@, opt_view(*ip)));
    assert(cells.len() == 5);
    assert(cells[0] == r@[0]@ && cells[1] == r@[1]@ && cells[2] == r@[2]@);
    assert(cells[3] == r@[3]@ && cells[4] == r@[4]@);
}

} // verus!
