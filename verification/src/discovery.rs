//! Finding hosts in the local network.
use crate::error::RustmoteError;
use crate::net::{comes_before, ip_before, network_start, Cidr, IpAddr};
use crate::text::{
    chars_of, is_digit, join, lemma_first_of, lemma_join_first, lemma_views_push, lines, opt_clone,
    opt_view, split, split_texts_join_again, text_eq, text_lines, text_split, text_trim_end_char,
    text_words, trim_end_char, views, words,
};
use crate::time::TimeSpan;
use vstd::prelude::*;

verus! {

/// Seconds that a scan takes at most.
pub const DEFAULT_SCAN_TIMEOUT: u64 = 9;

/// Milliseconds that are waited for the reply to a ping at most.
pub const LONGEST_PING: u64 = 800;

// ---------------------------------------------------------------------------------------------
// What the sweeps find
// ---------------------------------------------------------------------------------------------

/// A host of the local network.
#[derive(Debug, PartialEq, Eq)]
pub struct DiscoveredHost<T = String> {
    pub ip: IpAddr,
    /// The name that it announces, if it announces one.
    pub hostname: Option<T>,
    /// Its hardware address, where the system knows it.
    pub mac: Option<T>,
    /// Whether a registered server has its address.
    pub is_known_server: bool,
}

/// The view of a [`DiscoveredHost`].
pub type HostView = DiscoveredHost<Seq<char>>;

impl View for DiscoveredHost {
    type V = DiscoveredHost<Seq<char>>;

    open spec fn view(&self) -> DiscoveredHost<Seq<char>> {
        DiscoveredHost {
            ip: self.ip,
            hostname: opt_view(self.hostname),
            mac: opt_view(self.mac),
            is_known_server: self.is_known_server,
        }
    }
}

/// An address that was announced, with the name that came with it.
#[derive(Debug, PartialEq, Eq)]
pub struct MdnsFinding<T = String> {
    pub ip: IpAddr,
    pub hostname: Option<T>,
}

/// The view of a [`MdnsFinding`].
pub type FindingView = MdnsFinding<Seq<char>>;

impl View for MdnsFinding {
    type V = MdnsFinding<Seq<char>>;

    open spec fn view(&self) -> MdnsFinding<Seq<char>> {
        MdnsFinding { ip: self.ip, hostname: opt_view(self.hostname) }
    }
}

/// An address and the hardware address that the system knows for it.
#[derive(Debug, PartialEq, Eq)]
pub struct ArpEntry<T = String> {
    pub ip: IpAddr,
    pub mac: T,
}

/// The view of a [`ArpEntry`].
pub type ArpView = ArpEntry<Seq<char>>;

impl View for ArpEntry {
    type V = ArpEntry<Seq<char>>;

    open spec fn view(&self) -> ArpEntry<Seq<char>> {
        ArpEntry { ip: self.ip, mac: self.mac@ }
    }
}

/// The name in an announcement: without dots at its end, and none where it is empty.
pub open spec fn announced_name(hostname: Seq<char>) -> Option<Seq<char>> {
    if hostname.len() == 0 {
        None
    } else {
        Some(trim_end_char(hostname, '.'))
    }
}

/// What an announcement of a service says of the addresses in it.
pub fn announced(hostname: &str, addresses: &Vec<IpAddr>) -> (out: Vec<MdnsFinding>)
    ensures
        views(out@) == Seq::new(
            addresses@.len(),
            |i: int| MdnsFinding { ip: addresses@[i], hostname: announced_name(hostname@) },
        ),
{
    let name = if hostname.is_empty() {
        None
    } else {
        Some(text_trim_end_char(hostname, '.'))
    };
    let ghost want = Seq::new(
        addresses@.len(),
        |i: int| MdnsFinding { ip: addresses@[i], hostname: announced_name(hostname@) },
    );
    let mut out: Vec<MdnsFinding> = Vec::new();
    let mut i: usize = 0;
    assert(views(out@) =~= want.take(0));
    while i < addresses.len()
        invariant
            i <= addresses@.len(),
            opt_view(name) == announced_name(hostname@),
            want == Seq::new(
                addresses@.len(),
                |i: int| MdnsFinding { ip: addresses@[i], hostname: announced_name(hostname@) },
            ),
            views(out@) == want.take(i as int),
        decreases addresses@.len() - i,
    {
        let finding = MdnsFinding { ip: addresses[i], hostname: opt_clone(&name) };
        proof {
            lemma_views_push(out@, finding);
            assert(want.take(i + 1) =~= want.take(i as int).push(want[i as int]));
        }
        out.push(finding);
        i += 1;
    }
    assert(want.take(i as int) =~= want);
    out
}

/// How long the reply to a ping is waited for: a quarter of the time that the sweep has, and not
/// longer than the longest ping.
pub fn ping_budget(sweep: TimeSpan) -> (r: TimeSpan)
    ensures
        r.spec_nanos() == if sweep.spec_nanos() / 4 < 800_000_000 {
            sweep.spec_nanos() / 4
        } else {
            800_000_000
        },
{
    let quarter: u128 = sweep.nanos() / 4;
    let longest = TimeSpan::from_millis(LONGEST_PING);
    if quarter < 800_000_000 {
        match TimeSpan::from_nanos(quarter) {
            Some(span) => span,
            None => longest,
        }
    } else {
        longest
    }
}

/// Folds 64 random bits to the sixteen that identify a ping.
pub fn rand_u16(full: u64) -> (r: u16)
    ensures
        r == ((full ^ (full >> 16) ^ (full >> 32) ^ (full >> 48)) & 0xFFFF) as u16,
{
    ((full ^ (full >> 16) ^ (full >> 32) ^ (full >> 48)) & 0xFFFF) as u16
}

// ---------------------------------------------------------------------------------------------
// The system's table of hardware addresses
// ---------------------------------------------------------------------------------------------

/// Hexadecimal digits.
pub open spec fn is_hex(c: char) -> bool {
    is_digit(c) || 'a' <= c <= 'f' || 'A' <= c <= 'F'
}

/// Two hexadecimal digits.
pub open spec fn is_hex_pair(s: Seq<char>) -> bool {
    s.len() == 2 && is_hex(s[0]) && is_hex(s[1])
}

/// A hardware address: six pairs of hexadecimal digits with colons between them.
pub open spec fn is_mac(s: Seq<char>) -> bool {
    let parts = split(s, ':');
    parts.len() == 6 && forall|i: int| 0 <= i < parts.len() ==> is_hex_pair(#[trigger] parts[i])
}

fn char_is_hex(c: char) -> (r: bool)
    ensures
        r == is_hex(c),
{
    ('0' <= c && c <= '9') || ('a' <= c && c <= 'f') || ('A' <= c && c <= 'F')
}

/// Tests for a hardware address.
pub fn looks_like_mac(s: &str) -> (r: bool)
    ensures
        r == is_mac(s@),
{
    let parts = text_split(s, ':');
    if parts.len() != 6 {
        return false;
    }
    let mut i: usize = 0;
    while i < parts.len()
        invariant
            i <= parts@.len(),
            views(parts@) == split(s@, ':'),
            forall|j: int| 0 <= j < i ==> is_hex_pair(#[trigger] views(parts@)[j]),
        decreases parts@.len() - i,
    {
        let pair = chars_of(parts[i].as_str());
        assert(views(parts@)[i as int] == pair@);
        if pair.len() != 2 || !char_is_hex(pair[0]) || !char_is_hex(pair[1]) {
            assert(!is_hex_pair(split(s@, ':')[i as int]));
            return false;
        }
        i += 1;
    }
    true
}

/// A row of the table: the texts of an address and of the hardware address that belongs to it. A
/// row has at least four columns; one that is not resolved yet has zeros.
pub open spec fn arp_row(line: Seq<char>) -> Option<(Seq<char>, Seq<char>)> {
    let columns = words(line);
    if columns.len() < 4 || columns[3] == "00:00:00:00:00:00"@ || !is_mac(columns[3]) {
        None
    } else {
        Some((columns[0], columns[3]))
    }
}

/// The rows of a table, without its head.
pub open spec fn arp_rows(rows: Seq<Seq<char>>) -> Seq<(Seq<char>, Seq<char>)>
    decreases rows.len(),
{
    if rows.len() <= 1 {
        seq![]
    } else {
        let before = arp_rows(rows.drop_last());
        match arp_row(rows.last()) {
            Some(row) => before.push(row),
            None => before,
        }
    }
}

/// The views of pairs of texts.
pub open spec fn pair_views(pairs: Seq<(String, String)>) -> Seq<(Seq<char>, Seq<char>)> {
    Seq::new(pairs.len(), |i: int| (pairs[i].0@, pairs[i].1@))
}

/// Reads the rows of the system's table of hardware addresses.
pub fn arp_candidates(body: &str) -> (out: Vec<(String, String)>)
    ensures
        pair_views(out@) == arp_rows(lines(body@)),
{
    let rows = text_lines(body);
    let mut out: Vec<(String, String)> = Vec::new();
    let mut i: usize = 0;
    assert(pair_views(out@) =~= arp_rows(views(rows@).take(0)));
    while i < rows.len()
        invariant
            i <= rows@.len(),
            pair_views(out@) == arp_rows(views(rows@).take(i as int)),
        decreases rows@.len() - i,
    {
        let ghost before = out@;
        let ghost next = views(rows@).take(i + 1);
        assert(next.drop_last() =~= views(rows@).take(i as int));
        assert(next.last() == rows@[i as int]@);
        if i > 0 {
            let columns = text_words(rows[i].as_str());
            if columns.len() >= 4 && !text_eq(columns[3].as_str(), "00:00:00:00:00:00")
                && looks_like_mac(columns[3].as_str()) {
                out.push((columns[0].clone(), columns[3].clone()));
                assert(pair_views(out@) =~= pair_views(before).push(
                    (columns@[0]@, columns@[3]@),
                ));
                assert(arp_row(rows@[i as int]@) == Some((columns@[0]@, columns@[3]@)));
            } else {
                assert(arp_row(rows@[i as int]@) is None);
            }
        } else {
            assert(pair_views(out@) =~= Seq::empty());
        }
        i += 1;
    }
    assert(views(rows@).take(i as int) =~= views(rows@));
    out
}

/// The entries of rows whose address was understood.
pub open spec fn arp_entries(
    rows: Seq<(Seq<char>, Seq<char>)>,
    addresses: Seq<Option<IpAddr>>,
) -> Seq<ArpView>
    decreases rows.len(),
{
    if rows.len() == 0 || addresses.len() != rows.len() {
        seq![]
    } else {
        let before = arp_entries(rows.drop_last(), addresses.drop_last());
        match addresses.last() {
            Some(ip) => before.push(ArpEntry { ip, mac: rows.last().1 }),
            None => before,
        }
    }
}

/// Whether a reader of addresses can read a text as this.
pub open spec fn can_read<F: Fn(&str) -> Option<IpAddr>>(
    read: F,
    text: Seq<char>,
    address: Option<IpAddr>,
) -> bool {
    exists|t: &str| t@ == text && #[trigger] call_ensures(read, (t,), address)
}

/// Whether a reader of addresses can read these of the rows.
pub open spec fn reads_addresses<F: Fn(&str) -> Option<IpAddr>>(
    read: F,
    rows: Seq<(Seq<char>, Seq<char>)>,
    addresses: Seq<Option<IpAddr>>,
) -> bool {
    addresses.len() == rows.len() && forall|i: int|
        0 <= i < rows.len() ==> can_read(read, rows[i].0, #[trigger] addresses[i])
}

/// Reads the system's table of hardware addresses. The caller brings what reads an address; rows
/// whose address it does not understand are passed over.
pub fn parse_proc_net_arp<F: Fn(&str) -> Option<IpAddr>>(body: &str, read: F) -> (out: Vec<
    ArpEntry,
>)
    requires
        forall|text: &str| call_requires(read, (text,)),
    ensures
        exists|addresses: Seq<Option<IpAddr>>| #[trigger]
            reads_addresses(read, arp_rows(lines(body@)), addresses) && views(out@) == arp_entries(
                arp_rows(lines(body@)),
                addresses,
            ),
{
    let rows = arp_candidates(body);
    let ghost texts = pair_views(rows@);
    let mut out: Vec<ArpEntry> = Vec::new();
    let mut i: usize = 0;
    let ghost mut addresses: Seq<Option<IpAddr>> = seq![];
    assert(views(out@) =~= arp_entries(texts.take(0), addresses));
    while i < rows.len()
        invariant
            i <= rows@.len(),
            texts == pair_views(rows@),
            forall|text: &str| call_requires(read, (text,)),
            reads_addresses(read, texts.take(i as int), addresses),
            views(out@) == arp_entries(texts.take(i as int), addresses),
        decreases rows@.len() - i,
    {
        let ghost before = out@;
        let ghost known = addresses;
        let text = rows[i].0.as_str();
        let address = read(text);
        proof {
            let next = texts.take(i + 1);
            assert(next.drop_last() =~= texts.take(i as int));
            assert(next.last() == texts[i as int]);
            addresses = known.push(address);
            assert(addresses.drop_last() =~= known);
            assert(can_read(read, next.last().0, address));
            assert forall|j: int| 0 <= j < next.len() implies can_read(
                read,
                next[j].0,
                #[trigger] addresses[j],
            ) by {
                if j < i {
                    assert(addresses[j] == known[j]);
                    assert(next[j] == texts.take(i as int)[j]);
                }
            }
        }
        match address {
            Some(ip) => {
                let entry = ArpEntry { ip, mac: rows[i].1.clone() };
                proof {
                    lemma_views_push(before, entry);
                }
                out.push(entry);
            },
            None => {},
        }
        i += 1;
    }
    assert(texts.take(i as int) =~= texts);
    out
}

// ---------------------------------------------------------------------------------------------
// The network to scan
// ---------------------------------------------------------------------------------------------

/// A network interface: whether it loops back, and its address of version 4 with its prefix.
#[derive(Debug, Clone, Copy, PartialEq, Eq)]
pub struct Interface {
    pub loopback: bool,
    pub v4: Option<(u32, u8)>,
}

/// Whether an interface names a network to scan.
pub open spec fn is_usable(i: Interface) -> bool {
    !i.loopback && match i.v4 {
        Some((_, prefix_len)) => prefix_len <= 32,
        None => false,
    }
}

/// The first interface that names a network.
pub open spec fn first_usable(interfaces: Seq<Interface>) -> Option<(u32, u8)>
    decreases interfaces.len(),
{
    if interfaces.len() == 0 {
        None
    } else if is_usable(interfaces[0]) {
        interfaces[0].v4
    } else {
        first_usable(interfaces.skip(1))
    }
}

/// The network of the first interface that does not loop back and has an address of version 4. That
/// the interfaces could not be listed counts as that there are none.
pub fn auto_detect_cidr(interfaces: Option<&Vec<Interface>>) -> (r: Result<Cidr, RustmoteError>)
    ensures
        match detected(interfaces) {
            Some((addr, prefix_len)) => r matches Ok(net) && net.spec_addr() == network_start(
                addr,
                prefix_len,
            ) && net.spec_prefix_len() == prefix_len,
            None => r matches Err(e) && e@ == RustmoteError::<Seq<char>>::DiscoveryNoInterface,
        },
{
    match interfaces {
        None => Err(RustmoteError::DiscoveryNoInterface),
        Some(list) => match first_network(list) {
            Some(net) => Ok(net.trunc()),
            None => Err(RustmoteError::DiscoveryNoInterface),
        },
    }
}

fn first_network(list: &Vec<Interface>) -> (r: Option<Cidr>)
    ensures
        match first_usable(list@) {
            Some((addr, prefix_len)) => r matches Some(net) && net.spec_addr() == addr
                && net.spec_prefix_len() == prefix_len,
            None => r is None,
        },
{
    let mut i: usize = 0;
    assert(list@.skip(0) =~= list@);
    while i < list.len()
        invariant
            i <= list@.len(),
            first_usable(list@.skip(i as int)) == first_usable(list@),
        decreases list@.len() - i,
    {
        assert(list@.skip(i as int)[0] == list@[i as int]);
        assert(list@.skip(i as int).skip(1) =~= list@.skip(i + 1));
        if !list[i].loopback {
            match list[i].v4 {
                Some((addr, prefix_len)) => match Cidr::new(addr, prefix_len) {
                    Some(net) => {
                        return Some(net);
                    },
                    None => {},
                },
                None => {},
            }
        }
        i += 1;
    }
    None
}

// ---------------------------------------------------------------------------------------------
// Merging
// ---------------------------------------------------------------------------------------------

/// The first name that was announced for an address.
pub open spec fn first_name(found: Seq<FindingView>, ip: IpAddr) -> Option<Seq<char>>
    decreases found.len(),
{
    if found.len() == 0 {
        None
    } else {
        let before = first_name(found.drop_last(), ip);
        if before is None && found.last().ip == ip {
            found.last().hostname
        } else {
            before
        }
    }
}

/// The first hardware address that is known for an address.
pub open spec fn first_mac(table: Seq<ArpView>, ip: IpAddr) -> Option<Seq<char>>
    decreases table.len(),
{
    if table.len() == 0 {
        None
    } else {
        let before = first_mac(table.drop_last(), ip);
        if before is None && table.last().ip == ip {
            Some(table.last().mac)
        } else {
            before
        }
    }
}

/// Whether any sweep found an address.
pub open spec fn was_found(
    mdns: Seq<FindingView>,
    pinged: Seq<IpAddr>,
    arp: Seq<ArpView>,
    ip: IpAddr,
) -> bool {
    ||| exists|i: int| 0 <= i < mdns.len() && (#[trigger] mdns[i]).ip == ip
    ||| pinged.contains(ip)
    ||| exists|i: int| 0 <= i < arp.len() && (#[trigger] arp[i]).ip == ip
}

/// What is known of the host at an address.
pub open spec fn host_at(
    mdns: Seq<FindingView>,
    arp: Seq<ArpView>,
    known: Seq<IpAddr>,
    ip: IpAddr,
) -> HostView {
    DiscoveredHost {
        ip,
        hostname: first_name(mdns, ip),
        mac: first_mac(arp, ip),
        is_known_server: known.contains(ip),
    }
}

/// Whether hosts stand in the order of their addresses, none of them twice.
pub open spec fn ascending(hosts: Seq<HostView>) -> bool {
    forall|i: int, j: int|
        0 <= i < j < hosts.len() ==> ip_before((#[trigger] hosts[i]).ip, (#[trigger] hosts[j]).ip)
}

/// Whether a host stands in a list.
pub open spec fn listed(hosts: Seq<HostView>, ip: IpAddr) -> bool {
    exists|i: int| 0 <= i < hosts.len() && (#[trigger] hosts[i]).ip == ip
}

/// Whether hosts are what the sweeps found: one host for each address, in the order of the
/// addresses, with all that is known of it.
pub open spec fn is_merged(
    hosts: Seq<HostView>,
    mdns: Seq<FindingView>,
    pinged: Seq<IpAddr>,
    arp: Seq<ArpView>,
    known: Seq<IpAddr>,
) -> bool {
    &&& ascending(hosts)
    &&& forall|ip: IpAddr| #[trigger] listed(hosts, ip) <==> was_found(mdns, pinged, arp, ip)
    &&& forall|i: int|
        0 <= i < hosts.len() ==> #[trigger] hosts[i] == host_at(mdns, arp, known, hosts[i].ip)
}

fn contains_ip(list: &Vec<IpAddr>, ip: IpAddr) -> (r: bool)
    ensures
        r == list@.contains(ip),
{
    let mut i: usize = 0;
    while i < list.len()
        invariant
            i <= list@.len(),
            forall|j: int| 0 <= j < i ==> list@[j] != ip,
        decreases list@.len() - i,
    {
        if list[i] == ip {
            assert(list@[i as int] == ip);
            return true;
        }
        i += 1;
    }
    false
}

/// The place of an address among hosts; one of which nothing else is known is put there where it is
/// missing.
fn place(hosts: &mut Vec<DiscoveredHost>, ip: IpAddr, is_known: bool) -> (at: usize)
    requires
        ascending(views(old(hosts)@)),
    ensures
        ascending(views(final(hosts)@)),
        at < final(hosts)@.len(),
        at <= old(hosts)@.len(),
        final(hosts)@[at as int].ip == ip,
        listed(views(old(hosts)@), ip) ==> final(hosts)@ == old(hosts)@,
        !listed(views(old(hosts)@), ip) ==> views(final(hosts)@) == views(old(hosts)@).insert(
            at as int,
            DiscoveredHost { ip, hostname: None, mac: None, is_known_server: is_known },
        ),
{
    let ghost start = views(hosts@);
    let mut at: usize = 0;
    while at < hosts.len() && comes_before(hosts[at].ip, ip)
        invariant
            at <= hosts@.len(),
            start == views(hosts@),
            forall|j: int| 0 <= j < at ==> ip_before((#[trigger] start[j]).ip, ip),
        decreases hosts@.len() - at,
    {
        assert(start[at as int] == hosts@[at as int]@);
        at += 1;
    }
    if at < hosts.len() && hosts[at].ip == ip {
        assert(start[at as int].ip == ip);
        return at;
    }
    proof {
        if at < hosts@.len() {
            assert(start[at as int] == hosts@[at as int]@);
            assert(ip_before(ip, start[at as int].ip));
        }
        assert forall|j: int| at <= j < start.len() implies ip_before(
            ip,
            (#[trigger] start[j]).ip,
        ) by {
            if j > at {
                assert(ip_before(start[at as int].ip, start[j].ip));
            }
        }
        assert(!listed(start, ip));
    }
    let host = DiscoveredHost { ip, hostname: None, mac: None, is_known_server: is_known };
    hosts.insert(at, host);
    proof {
        let now = views(hosts@);
        assert(now =~= start.insert(at as int, host@));
        assert forall|i: int, j: int| 0 <= i < j < now.len() implies ip_before(
            (#[trigger] now[i]).ip,
            (#[trigger] now[j]).ip,
        ) by {
            let x = if i < at { i } else { i - 1 };
            let y = if j < at { j } else { j - 1 };
            if i != at {
                assert(now[i] == start[x]);
            }
            if j != at {
                assert(now[j] == start[y]);
            }
        }
    }
    at
}

proof fn lemma_insert_listed(hosts: Seq<HostView>, at: int, host: HostView, ip: IpAddr)
    requires
        0 <= at <= hosts.len(),
    ensures
        listed(hosts.insert(at, host), ip) <==> listed(hosts, ip) || host.ip == ip,
{
    let now = hosts.insert(at, host);
    if listed(hosts, ip) {
        let i = choose|i: int| 0 <= i < hosts.len() && (#[trigger] hosts[i]).ip == ip;
        let k = if i < at { i } else { i + 1 };
        assert(now[k] == hosts[i]);
    }
    assert(now[at] == host);
    if listed(now, ip) {
        let i = choose|i: int| 0 <= i < now.len() && (#[trigger] now[i]).ip == ip;
        if i != at {
            let k = if i < at { i } else { i - 1 };
            assert(now[i] == hosts[k]);
        }
    }
}

/// Makes one list of what the sweeps found: one host for each address, in the order of the
/// addresses. Of several names or hardware addresses the first counts.
pub fn merge_results(
    mdns: &Vec<MdnsFinding>,
    pinged: &Vec<IpAddr>,
    arp: &Vec<ArpEntry>,
    known_servers: &Vec<IpAddr>,
) -> (hosts: Vec<DiscoveredHost>)
    ensures
        is_merged(views(hosts@), views(mdns@), pinged@, views(arp@), known_servers@),
{
    let mut hosts: Vec<DiscoveredHost> = Vec::new();
    let mut i: usize = 0;
    let ghost none: Seq<IpAddr> = seq![];
    let ghost empty: Seq<ArpView> = seq![];
    while i < mdns.len()
        invariant
            i <= mdns@.len(),
            none == Seq::<IpAddr>::empty(),
            empty == Seq::<ArpView>::empty(),
            is_merged(views(hosts@), views(mdns@).take(i as int), none, empty, known_servers@),
        decreases mdns@.len() - i,
    {
        let ghost before = views(hosts@);
        let ghost old_found = views(mdns@).take(i as int);
        let ghost found = views(mdns@).take(i + 1);
        let ip = mdns[i].ip;
        let at = place(&mut hosts, ip, contains_ip(known_servers, ip));
        let ghost placed = views(hosts@);
        if hosts[at].hostname.is_none() {
            let known = hosts[at].is_known_server;
            let mac = opt_clone(&hosts[at].mac);
            hosts[at] = DiscoveredHost {
                ip,
                hostname: opt_clone(&mdns[i].hostname),
                mac,
                is_known_server: known,
            };
        }
        proof {
            let now = views(hosts@);
            assert(found.drop_last() =~= old_found);
            assert(found.last() == mdns@[i as int]@);
            assert(placed[at as int].ip == ip);
            assert(now =~= placed.update(at as int, now[at as int]));
            assert(now[at as int].ip == ip);
            assert(ascending(now)) by {
                assert(forall|k: int| 0 <= k < now.len() ==> (#[trigger] now[k]).ip == placed[k].ip);
            }
            assert forall|x: IpAddr| #[trigger] listed(now, x) <==> was_found(
                found,
                none,
                empty,
                x,
            ) by {
                lemma_listed_same(placed, now, x);
                if !listed(before, ip) {
                    lemma_insert_listed(before, at as int, placed[at as int], x);
                }
                lemma_found_more(old_found, found, x);
                assert(listed(before, x) <==> was_found(old_found, none, empty, x));
            }
            assert forall|k: int| 0 <= k < now.len() implies #[trigger] now[k] == host_at(
                found,
                empty,
                known_servers@,
                now[k].ip,
            ) by {
                lemma_placed_from(before, placed, at as int, ip, k);
                if k != at {
                    assert(now[k] == placed[k]);
                    assert(ip_before(now[k].ip, ip) || ip_before(ip, now[k].ip));
                } else if !listed(before, ip) {
                    lemma_unfound_name(old_found, ip);
                    assert(!was_found(old_found, none, empty, ip));
                }
            }
        }
        i += 1;
    }
    assert(views(mdns@).take(i as int) =~= views(mdns@));
    let ghost found = views(mdns@);
    let mut j: usize = 0;
    assert(pinged@.take(0) =~= none);
    while j < pinged.len()
        invariant
            j <= pinged@.len(),
            empty == Seq::<ArpView>::empty(),
            is_merged(views(hosts@), found, pinged@.take(j as int), empty, known_servers@),
        decreases pinged@.len() - j,
    {
        let ghost before = views(hosts@);
        let ip = pinged[j];
        let at = place(&mut hosts, ip, contains_ip(known_servers, ip));
        proof {
            let now = views(hosts@);
            let next = pinged@.take(j + 1);
            assert forall|x: IpAddr| #[trigger] listed(now, x) <==> was_found(
                found,
                next,
                empty,
                x,
            ) by {
                if !listed(before, ip) {
                    lemma_insert_listed(before, at as int, now[at as int], x);
                }
                assert(listed(before, x) <==> was_found(found, pinged@.take(j as int), empty, x));
                assert(next.contains(x) <==> pinged@.take(j as int).contains(x) || x == ip) by {
                    assert(next =~= pinged@.take(j as int).push(ip));
                    if pinged@.take(j as int).contains(x) {
                        let k = choose|k: int| 0 <= k < j && pinged@.take(j as int)[k] == x;
                        assert(next[k] == x);
                    }
                    assert(next[j as int] == ip);
                }
            }
            assert forall|k: int| 0 <= k < now.len() implies #[trigger] now[k] == host_at(
                found,
                empty,
                known_servers@,
                now[k].ip,
            ) by {
                lemma_placed_from(before, now, at as int, ip, k);
                if k == at && !listed(before, ip) {
                    assert(!was_found(found, pinged@.take(j as int), empty, ip));
                    lemma_unfound_name(found, ip);
                }
            }
        }
        j += 1;
    }
    assert(pinged@.take(j as int) =~= pinged@);
    let mut k: usize = 0;
    assert(views(arp@).take(0) =~= empty);
    while k < arp.len()
        invariant
            k <= arp@.len(),
            is_merged(views(hosts@), found, pinged@, views(arp@).take(k as int), known_servers@),
        decreases arp@.len() - k,
    {
        let ghost before = views(hosts@);
        let ghost old_table = views(arp@).take(k as int);
        let ghost table = views(arp@).take(k + 1);
        let ip = arp[k].ip;
        let at = place(&mut hosts, ip, contains_ip(known_servers, ip));
        let ghost placed = views(hosts@);
        if hosts[at].mac.is_none() {
            let known = hosts[at].is_known_server;
            let hostname = opt_clone(&hosts[at].hostname);
            hosts[at] = DiscoveredHost {
                ip,
                hostname,
                mac: Some(arp[k].mac.clone()),
                is_known_server: known,
            };
        }
        proof {
            let now = views(hosts@);
            assert(table.drop_last() =~= old_table);
            assert(table.last() == arp@[k as int]@);
            assert(placed[at as int].ip == ip);
            assert(now =~= placed.update(at as int, now[at as int]));
            assert(now[at as int].ip == ip);
            assert(ascending(now)) by {
                assert(forall|n: int| 0 <= n < now.len() ==> (#[trigger] now[n]).ip == placed[n].ip);
            }
            assert forall|x: IpAddr| #[trigger] listed(now, x) <==> was_found(
                found,
                pinged@,
                table,
                x,
            ) by {
                lemma_listed_same(placed, now, x);
                if !listed(before, ip) {
                    lemma_insert_listed(before, at as int, placed[at as int], x);
                }
                lemma_table_more(old_table, table, x);
                assert(listed(before, x) <==> was_found(found, pinged@, old_table, x));
            }
            assert forall|n: int| 0 <= n < now.len() implies #[trigger] now[n] == host_at(
                found,
                table,
                known_servers@,
                now[n].ip,
            ) by {
                lemma_placed_from(before, placed, at as int, ip, n);
                if n != at {
                    assert(now[n] == placed[n]);
                    assert(ip_before(now[n].ip, ip) || ip_before(ip, now[n].ip));
                } else if !listed(before, ip) {
                    assert(!was_found(found, pinged@, old_table, ip));
                    lemma_unfound_name(found, ip);
                    lemma_unfound_mac(old_table, ip);
                }
            }
        }
        k += 1;
    }
    assert(views(arp@).take(k as int) =~= views(arp@));
    hosts
}

proof fn lemma_listed_same(a: Seq<HostView>, b: Seq<HostView>, ip: IpAddr)
    requires
        a.len() == b.len(),
        forall|i: int| 0 <= i < a.len() ==> (#[trigger] a[i]).ip == b[i].ip,
    ensures
        listed(a, ip) == listed(b, ip),
{
    if listed(a, ip) {
        let i = choose|i: int| 0 <= i < a.len() && (#[trigger] a[i]).ip == ip;
        assert(b[i].ip == ip);
    }
    if listed(b, ip) {
        let i = choose|i: int| 0 <= i < b.len() && (#[trigger] b[i]).ip == ip;
        assert(a[i].ip == ip);
    }
}

proof fn lemma_placed_from(
    before: Seq<HostView>,
    placed: Seq<HostView>,
    at: int,
    ip: IpAddr,
    k: int,
)
    requires
        0 <= at < placed.len(),
        0 <= k < placed.len(),
        listed(before, ip) ==> placed == before,
        !listed(before, ip) ==> 0 <= at <= before.len() && placed == before.insert(at, placed[at]),
    ensures
        k != at || listed(before, ip) ==> exists|n: int|
            0 <= n < before.len() && #[trigger] before[n] == placed[k],
{
    if listed(before, ip) {
        assert(before[k] == placed[k]);
    } else if k != at {
        let n = if k < at { k } else { k - 1 };
        assert(before[n] == placed[k]);
    }
}

proof fn lemma_found_more(before: Seq<FindingView>, now: Seq<FindingView>, ip: IpAddr)
    requires
        now.len() > 0,
        now.drop_last() == before,
    ensures
        (exists|i: int| 0 <= i < now.len() && (#[trigger] now[i]).ip == ip) <==> (exists|i: int|
            0 <= i < before.len() && (#[trigger] before[i]).ip == ip) || now.last().ip == ip,
{
    if exists|i: int| 0 <= i < before.len() && (#[trigger] before[i]).ip == ip {
        let i = choose|i: int| 0 <= i < before.len() && (#[trigger] before[i]).ip == ip;
        assert(now[i] == before[i]);
    }
    assert(now[now.len() - 1] == now.last());
    if exists|i: int| 0 <= i < now.len() && (#[trigger] now[i]).ip == ip {
        let i = choose|i: int| 0 <= i < now.len() && (#[trigger] now[i]).ip == ip;
        if i < before.len() {
            assert(before[i] == now[i]);
        }
    }
}

proof fn lemma_table_more(before: Seq<ArpView>, now: Seq<ArpView>, ip: IpAddr)
    requires
        now.len() > 0,
        now.drop_last() == before,
    ensures
        (exists|i: int| 0 <= i < now.len() && (#[trigger] now[i]).ip == ip) <==> (exists|i: int|
            0 <= i < before.len() && (#[trigger] before[i]).ip == ip) || now.last().ip == ip,
{
    if exists|i: int| 0 <= i < before.len() && (#[trigger] before[i]).ip == ip {
        let i = choose|i: int| 0 <= i < before.len() && (#[trigger] before[i]).ip == ip;
        assert(now[i] == before[i]);
    }
    assert(now[now.len() - 1] == now.last());
    if exists|i: int| 0 <= i < now.len() && (#[trigger] now[i]).ip == ip {
        let i = choose|i: int| 0 <= i < now.len() && (#[trigger] now[i]).ip == ip;
        if i < before.len() {
            assert(before[i] == now[i]);
        }
    }
}

proof fn lemma_unfound_name(found: Seq<FindingView>, ip: IpAddr)
    requires
        forall|i: int| 0 <= i < found.len() ==> (#[trigger] found[i]).ip != ip,
    ensures
        first_name(found, ip) is None,
    decreases found.len(),
{
    if found.len() > 0 {
        assert forall|i: int| 0 <= i < found.drop_last().len() implies (
        #[trigger] found.drop_last()[i]).ip != ip by {
            assert(found.drop_last()[i] == found[i]);
        }
        lemma_unfound_name(found.drop_last(), ip);
        assert(found[found.len() - 1].ip != ip);
    }
}

proof fn lemma_unfound_mac(table: Seq<ArpView>, ip: IpAddr)
    requires
        forall|i: int| 0 <= i < table.len() ==> (#[trigger] table[i]).ip != ip,
    ensures
        first_mac(table, ip) is None,
    decreases table.len(),
{
    if table.len() > 0 {
        assert forall|i: int| 0 <= i < table.drop_last().len() implies (
        #[trigger] table.drop_last()[i]).ip != ip by {
            assert(table.drop_last()[i] == table[i]);
        }
        lemma_unfound_mac(table.drop_last(), ip);
        assert(table[table.len() - 1].ip != ip);
    }
}

proof fn lemma_same_addresses(a: Seq<HostView>, b: Seq<HostView>)
    requires
        ascending(a),
        ascending(b),
        forall|ip: IpAddr| #[trigger] listed(a, ip) <==> listed(b, ip),
    ensures
        a.len() == b.len(),
        forall|i: int| 0 <= i < a.len() ==> (#[trigger] a[i]).ip == b[i].ip,
    decreases a.len(),
{
    if a.len() == 0 || b.len() == 0 {
        if a.len() > 0 {
            assert(listed(a, a[0].ip));
        }
        if b.len() > 0 {
            assert(listed(b, b[0].ip));
            assert(listed(a, b[0].ip));
        }
    } else {
        let x = a.last().ip;
        let y = b.last().ip;
        assert(a[a.len() - 1].ip == x && b[b.len() - 1].ip == y);
        assert(listed(a, x) && listed(b, y));
        assert(listed(b, x) && listed(a, y));
        let j = choose|j: int| 0 <= j < b.len() && (#[trigger] b[j]).ip == x;
        let i = choose|i: int| 0 <= i < a.len() && (#[trigger] a[i]).ip == y;
        if x != y {
            assert(ip_before(a[i].ip, a[a.len() - 1].ip));
            assert(ip_before(b[j].ip, b[b.len() - 1].ip));
        }
        let c = a.drop_last();
        let d = b.drop_last();
        assert forall|ip: IpAddr| #[trigger] listed(c, ip) <==> listed(d, ip) by {
            lemma_listed_before_last(a, ip);
            lemma_listed_before_last(b, ip);
            assert(listed(a, ip) <==> listed(b, ip));
        }
        lemma_same_addresses(c, d);
        assert forall|k: int| 0 <= k < a.len() implies (#[trigger] a[k]).ip == b[k].ip by {
            if k < a.len() - 1 {
                assert(c[k] == a[k] && d[k] == b[k]);
            }
        }
    }
}

proof fn lemma_listed_before_last(hosts: Seq<HostView>, ip: IpAddr)
    requires
        ascending(hosts),
        hosts.len() > 0,
    ensures
        listed(hosts.drop_last(), ip) <==> listed(hosts, ip) && hosts.last().ip != ip,
{
    let rest = hosts.drop_last();
    if listed(rest, ip) {
        let i = choose|i: int| 0 <= i < rest.len() && (#[trigger] rest[i]).ip == ip;
        assert(hosts[i].ip == ip);
        assert(ip_before(hosts[i].ip, hosts[hosts.len() - 1].ip));
    }
    if listed(hosts, ip) && hosts.last().ip != ip {
        let i = choose|i: int| 0 <= i < hosts.len() && (#[trigger] hosts[i]).ip == ip;
        assert(rest[i].ip == ip);
    }
}

/// What the sweeps found makes one list: two lists of it are the same.
pub proof fn merged_hosts_are_determined(
    a: Seq<HostView>,
    b: Seq<HostView>,
    mdns: Seq<FindingView>,
    pinged: Seq<IpAddr>,
    arp: Seq<ArpView>,
    known: Seq<IpAddr>,
)
    requires
        is_merged(a, mdns, pinged, arp, known),
        is_merged(b, mdns, pinged, arp, known),
    ensures
        a == b,
{
    assert forall|ip: IpAddr| #[trigger] listed(a, ip) <==> listed(b, ip) by {
        assert(listed(a, ip) <==> was_found(mdns, pinged, arp, ip));
        assert(listed(b, ip) <==> was_found(mdns, pinged, arp, ip));
    }
    lemma_same_addresses(a, b);
    assert forall|i: int| 0 <= i < a.len() implies a[i] == b[i] by {
        assert(a[i] == host_at(mdns, arp, known, a[i].ip));
        assert(b[i] == host_at(mdns, arp, known, b[i].ip));
    }
    assert(a =~= b);
}

// ---------------------------------------------------------------------------------------------
// Scanning
// ---------------------------------------------------------------------------------------------

/// How the local network is scanned.
#[derive(Debug, PartialEq, Eq)]
pub struct Discovery {
    /// The network, where it is not to be detected.
    pub cidr: Option<Cidr>,
    pub timeout: TimeSpan,
    /// The addresses of the registered servers.
    pub known_servers: Vec<IpAddr>,
}

impl Default for Discovery {
    fn default() -> (r: Discovery)
        ensures
            r.cidr is None,
            r.timeout.spec_nanos() == DEFAULT_SCAN_TIMEOUT * 1_000_000_000,
            r.known_servers@ == Seq::<IpAddr>::empty(),
    {
        Discovery::new()
    }
}

impl Discovery {
    /// Scans the network that is detected, for the default time, and knows no servers.
    pub fn new() -> (r: Discovery)
        ensures
            r.cidr is None,
            r.timeout.spec_nanos() == DEFAULT_SCAN_TIMEOUT * 1_000_000_000,
            r.known_servers@ == Seq::<IpAddr>::empty(),
    {
        Discovery {
            cidr: None,
            timeout: TimeSpan::from_secs(DEFAULT_SCAN_TIMEOUT),
            known_servers: Vec::new(),
        }
    }

    /// Scans the given network.
    pub fn with_cidr(self, cidr: Cidr) -> (r: Discovery)
        ensures
            r == (Discovery { cidr: Some(cidr), ..self }),
    {
        Discovery { cidr: Some(cidr), timeout: self.timeout, known_servers: self.known_servers }
    }

    /// Scans for the given time.
    pub fn with_timeout(self, timeout: TimeSpan) -> (r: Discovery)
        ensures
            r == (Discovery { timeout, ..self }),
    {
        Discovery { cidr: self.cidr, timeout, known_servers: self.known_servers }
    }

    /// Knows the given servers.
    pub fn with_known_servers(self, servers: Vec<IpAddr>) -> (r: Discovery)
        ensures
            r == (Discovery { known_servers: servers, ..self }),
    {
        Discovery { cidr: self.cidr, timeout: self.timeout, known_servers: servers }
    }

    /// The network to scan: the given one, or else that of the first usable interface.
    pub fn network(&self, interfaces: Option<&Vec<Interface>>) -> (r: Result<Cidr, RustmoteError>)
        ensures
            match self.cidr {
                Some(cidr) => r == Ok::<Cidr, RustmoteError>(cidr),
                None => match detected(interfaces) {
                    Some((addr, prefix_len)) => r matches Ok(net) && net.spec_addr()
                        == network_start(addr, prefix_len) && net.spec_prefix_len() == prefix_len,
                    None => r matches Err(e) && e@ == RustmoteError::<
                        Seq<char>,
                    >::DiscoveryNoInterface,
                },
            },
    {
        match self.cidr {
            Some(cidr) => Ok(cidr),
            None => auto_detect_cidr(interfaces),
        }
    }

    /// The hosts that a scan found. A sweep that did not end in time found nothing.
    pub fn scanned(
        &self,
        mdns: Option<Vec<MdnsFinding>>,
        pinged: Option<Vec<IpAddr>>,
        arp: Option<Vec<ArpEntry>>,
    ) -> (hosts: Vec<DiscoveredHost>)
        ensures
            is_merged(
                views(hosts@),
                views(found_or_none(mdns)),
                found_or_none(pinged),
                views(found_or_none(arp)),
                self.known_servers@,
            ),
    {
        let mdns = match mdns {
            Some(list) => list,
            None => Vec::new(),
        };
        let pinged = match pinged {
            Some(list) => list,
            None => Vec::new(),
        };
        let arp = match arp {
            Some(list) => list,
            None => Vec::new(),
        };
        merge_results(&mdns, &pinged, &arp, &self.known_servers)
    }
}

/// The address and prefix of the first usable interface.
pub open spec fn detected(interfaces: Option<&Vec<Interface>>) -> Option<(u32, u8)> {
    match interfaces {
        Some(list) => first_usable(list@),
        None => None,
    }
}

/// What a sweep found, nothing where it did not end.
pub open spec fn found_or_none<V>(found: Option<Vec<V>>) -> Seq<V> {
    match found {
        Some(list) => list@,
        None => seq![],
    }
}

// ---------------------------------------------------------------------------------------------
// What is read and merged
// ---------------------------------------------------------------------------------------------

/// Whether a line of the table has a hardware address in its fourth column that is resolved.
pub open spec fn names_hardware(line: Seq<char>) -> bool {
    &&& words(line).len() >= 4
    &&& is_mac(words(line)[3])
    &&& words(line)[3] != "00:00:00:00:00:00"@
}

/// Whether entries were read from lines of a table, each from the line at the same place of a list
/// of ascending line numbers: the first column of that line reads as the entry's address, and the
/// fourth is the entry's hardware address. No line behind the head of the table is left out but
/// those without a hardware address and those whose address is not understood.
pub open spec fn read_from_lines<F: Fn(&str) -> Option<IpAddr>>(
    read: F,
    table: Seq<Seq<char>>,
    entries: Seq<ArpView>,
    at: Seq<int>,
) -> bool {
    &&& at.len() == entries.len()
    &&& forall|k: int|
        0 <= k < entries.len() ==> {
            &&& 1 <= #[trigger] at[k] < table.len()
            &&& names_hardware(table[at[k]])
            &&& can_read(read, words(table[at[k]])[0], Some(entries[k].ip))
            &&& entries[k].mac == words(table[at[k]])[3]
        }
    &&& forall|k: int, l: int| 0 <= k < l < at.len() ==> #[trigger] at[k] < #[trigger] at[l]
    &&& forall|i: int|
        1 <= i < table.len() && names_hardware(#[trigger] table[i]) ==> at.contains(i) || can_read(
            read,
            words(table[i])[0],
            None,
        )
}

proof fn lemma_read_from_lines<F: Fn(&str) -> Option<IpAddr>>(
    read: F,
    table: Seq<Seq<char>>,
    addresses: Seq<Option<IpAddr>>,
) -> (at: Seq<int>)
    requires
        reads_addresses(read, arp_rows(table), addresses),
    ensures
        read_from_lines(read, table, arp_entries(arp_rows(table), addresses), at),
    decreases table.len(),
{
    let rows = arp_rows(table);
    if table.len() <= 1 {
        seq![]
    } else {
        let rest = table.drop_last();
        let last = table.len() - 1;
        let line = table.last();
        assert forall|i: int| 0 <= i < rest.len() implies rest[i] == table[i] by {}
        match arp_row(line) {
            None => {
                assert(!names_hardware(line));
                let at = lemma_read_from_lines(read, rest, addresses);
                assert forall|i: int|
                    1 <= i < table.len() && names_hardware(#[trigger] table[i]) implies at.contains(
                    i,
                ) || can_read(read, words(table[i])[0], None) by {
                    assert(rest[i] == table[i]);
                }
                at
            },
            Some(row) => {
                let before = addresses.drop_last();
                assert(rows.drop_last() =~= arp_rows(rest));
                assert forall|i: int| 0 <= i < before.len() implies can_read(
                    read,
                    arp_rows(rest)[i].0,
                    #[trigger] before[i],
                ) by {
                    assert(before[i] == addresses[i]);
                    assert(arp_rows(rest)[i] == rows[i]);
                }
                let at = lemma_read_from_lines(read, rest, before);
                let entries = arp_entries(rows, addresses);
                let old = arp_entries(arp_rows(rest), before);
                assert(can_read(read, rows.last().0, addresses[rows.len() - 1]));
                match addresses.last() {
                    None => {
                        assert forall|i: int|
                            1 <= i < table.len() && names_hardware(
                                #[trigger] table[i],
                            ) implies at.contains(i) || can_read(read, words(table[i])[0], None) by {
                            if i < last {
                                assert(rest[i] == table[i]);
                            }
                        }
                        at
                    },
                    Some(ip) => {
                        let more = at.push(last);
                        assert(entries =~= old.push(ArpEntry { ip, mac: row.1 }));
                        assert forall|k: int| 0 <= k < entries.len() implies {
                            &&& 1 <= #[trigger] more[k] < table.len()
                            &&& names_hardware(table[more[k]])
                            &&& can_read(read, words(table[more[k]])[0], Some(entries[k].ip))
                            &&& entries[k].mac == words(table[more[k]])[3]
                        } by {
                            if k < old.len() {
                                assert(more[k] == at[k]);
                                assert(rest[at[k]] == table[at[k]]);
                            }
                        }
                        assert forall|i: int|
                            1 <= i < table.len() && names_hardware(
                                #[trigger] table[i],
                            ) implies more.contains(i) || can_read(
                            read,
                            words(table[i])[0],
                            None,
                        ) by {
                            if i < last {
                                assert(rest[i] == table[i]);
                                if at.contains(i) {
                                    let k = choose|k: int| 0 <= k < at.len() && at[k] == i;
                                    assert(more[k] == i);
                                }
                            } else {
                                assert(more[at.len() as int] == i);
                            }
                        }
                        more
                    },
                }
            },
        }
    }
}

/// Every entry of the system's table of hardware addresses comes from one line of it: the line's
/// first column reads as the entry's address, and its fourth column is the entry's hardware
/// address. The entries stand in the order of their lines, and no line with a resolved hardware
/// address and an address that is understood is left out.
pub proof fn entries_come_from_one_line_each<F: Fn(&str) -> Option<IpAddr>>(
    read: F,
    table: Seq<Seq<char>>,
    addresses: Seq<Option<IpAddr>>,
)
    requires
        reads_addresses(read, arp_rows(table), addresses),
    ensures
        exists|at: Seq<int>| #[trigger]
            read_from_lines(read, table, arp_entries(arp_rows(table), addresses), at),
{
    let at = lemma_read_from_lines(read, table, addresses);
}

/// What is read from the system's table of hardware addresses comes from its lines, one entry from
/// one line, in their order.
pub proof fn read_entries_come_from_one_line_each<F: Fn(&str) -> Option<IpAddr>>(
    body: &str,
    read: F,
    r: Vec<ArpEntry>,
)
    requires
        call_ensures(parse_proc_net_arp::<F>, (body, read), r),
    ensures
        exists|at: Seq<int>| #[trigger] read_from_lines(read, lines(body@), views(r@), at),
{
    let addresses = choose|addresses: Seq<Option<IpAddr>>| #[trigger]
        reads_addresses(read, arp_rows(lines(body@)), addresses) && views(r@) == arp_entries(
            arp_rows(lines(body@)),
            addresses,
        );
    let at = lemma_read_from_lines(read, lines(body@), addresses);
}

/// Whether an interface loops back, or has no address of version 4 with a prefix that fits one.
pub open spec fn passed_over(i: Interface) -> bool {
    i.loopback || match i.v4 {
        Some((_, prefix_len)) => prefix_len > 32,
        None => true,
    }
}

/// The network that is detected is that of the first interface that does not loop back and has an
/// address of version 4; there is none exactly where no interface is so.
pub proof fn first_network_is_detected(interfaces: Seq<Interface>)
    ensures
        first_usable(interfaces) matches Some(network) ==> exists|i: int|
            {
                &&& 0 <= i < interfaces.len()
                &&& (#[trigger] interfaces[i]).v4 == Some(network)
                &&& !interfaces[i].loopback
                &&& network.1 <= 32
                &&& forall|j: int|
                    0 <= j < i ==> passed_over(#[trigger] interfaces[j])
            },
        first_usable(interfaces) is None ==> forall|j: int|
            0 <= j < interfaces.len() ==> passed_over(#[trigger] interfaces[j]),
    decreases interfaces.len(),
{
    if interfaces.len() > 0 {
        let first = interfaces[0];
        let rest = interfaces.skip(1);
        if is_usable(first) {
            assert(interfaces[0].v4 == first_usable(interfaces));
        } else {
            first_network_is_detected(rest);
            assert forall|j: int| 0 <= j < rest.len() implies rest[j] == interfaces[j + 1] by {}
            if let Some(network) = first_usable(rest) {
                let i = choose|i: int|
                    {
                        &&& 0 <= i < rest.len()
                        &&& (#[trigger] rest[i]).v4 == Some(network)
                        &&& !rest[i].loopback
                        &&& network.1 <= 32
                        &&& forall|j: int|
                            0 <= j < i ==> passed_over(#[trigger] rest[j])
                    };
                assert(interfaces[i + 1].v4 == Some(network));
                assert forall|j: int| 0 <= j < i + 1 implies passed_over(
                    #[trigger] interfaces[j],
                ) by {
                    if j > 0 {
                        assert(rest[j - 1] == interfaces[j]);
                    }
                }
            } else {
                assert forall|j: int| 0 <= j < interfaces.len() implies passed_over(
                    #[trigger] interfaces[j],
                ) by {
                    if j > 0 {
                        assert(rest[j - 1] == interfaces[j]);
                    }
                }
            }
        }
    }
}

proof fn lemma_first_name(found: Seq<FindingView>, ip: IpAddr)
    ensures
        first_name(found, ip) matches Some(name) ==> exists|i: int|
            {
                &&& 0 <= i < found.len()
                &&& (#[trigger] found[i]).ip == ip
                &&& found[i].hostname == Some(name)
                &&& forall|j: int|
                    0 <= j < i && (#[trigger] found[j]).ip == ip ==> found[j].hostname is None
            },
        first_name(found, ip) is None ==> forall|j: int|
            0 <= j < found.len() && (#[trigger] found[j]).ip == ip ==> found[j].hostname is None,
    decreases found.len(),
{
    if found.len() > 0 {
        let rest = found.drop_last();
        let last = found.len() - 1;
        lemma_first_name(rest, ip);
        assert forall|j: int| 0 <= j < rest.len() implies rest[j] == found[j] by {}
        if let Some(name) = first_name(rest, ip) {
            let i = choose|i: int|
                {
                    &&& 0 <= i < rest.len()
                    &&& (#[trigger] rest[i]).ip == ip
                    &&& rest[i].hostname == Some(name)
                    &&& forall|j: int|
                        0 <= j < i && (#[trigger] rest[j]).ip == ip ==> rest[j].hostname is None
                };
            assert(found[i].ip == ip);
            assert forall|j: int| 0 <= j < i && (#[trigger] found[j]).ip == ip implies
                found[j].hostname is None by {
                assert(rest[j] == found[j]);
            }
        } else {
            assert forall|j: int| 0 <= j < last && (#[trigger] found[j]).ip == ip implies
                found[j].hostname is None by {
                assert(rest[j] == found[j]);
            }
            assert(found[last] == found.last());
        }
    }
}

proof fn lemma_first_mac(table: Seq<ArpView>, ip: IpAddr)
    ensures
        first_mac(table, ip) matches Some(mac) ==> exists|i: int|
            {
                &&& 0 <= i < table.len()
                &&& (#[trigger] table[i]).ip == ip
                &&& table[i].mac == mac
                &&& forall|j: int| 0 <= j < i ==> (#[trigger] table[j]).ip != ip
            },
        first_mac(table, ip) is None ==> forall|j: int|
            0 <= j < table.len() ==> (#[trigger] table[j]).ip != ip,
    decreases table.len(),
{
    if table.len() > 0 {
        let rest = table.drop_last();
        let last = table.len() - 1;
        lemma_first_mac(rest, ip);
        assert forall|j: int| 0 <= j < rest.len() implies rest[j] == table[j] by {}
        if let Some(mac) = first_mac(rest, ip) {
            let i = choose|i: int|
                {
                    &&& 0 <= i < rest.len()
                    &&& (#[trigger] rest[i]).ip == ip
                    &&& rest[i].mac == mac
                    &&& forall|j: int| 0 <= j < i ==> (#[trigger] rest[j]).ip != ip
                };
            assert(table[i].ip == ip);
            assert forall|j: int| 0 <= j < i implies (#[trigger] table[j]).ip != ip by {
                assert(rest[j] == table[j]);
            }
        } else {
            assert forall|j: int| 0 <= j < last implies (#[trigger] table[j]).ip != ip by {
                assert(rest[j] == table[j]);
            }
            assert(table[last] == table.last());
        }
    }
}

/// A host in the merged list was found by one of the sweeps. Its name is the first that was
/// announced for its address, its hardware address the first that the table has for it; it has
/// none exactly where none was announced, and where the table does not have it. It is a known
/// server exactly where its address is one of the known ones.
pub proof fn merged_hosts_say_what_was_found(
    hosts: Seq<HostView>,
    mdns: Seq<FindingView>,
    pinged: Seq<IpAddr>,
    arp: Seq<ArpView>,
    known: Seq<IpAddr>,
    at: int,
)
    requires
        is_merged(hosts, mdns, pinged, arp, known),
        0 <= at < hosts.len(),
    ensures
        ({
            let host = hosts[at];
            &&& {
                ||| exists|i: int| 0 <= i < mdns.len() && (#[trigger] mdns[i]).ip == host.ip
                ||| pinged.contains(host.ip)
                ||| exists|i: int| 0 <= i < arp.len() && (#[trigger] arp[i]).ip == host.ip
            }
            &&& host.hostname matches Some(name) ==> exists|i: int|
                {
                    &&& 0 <= i < mdns.len()
                    &&& (#[trigger] mdns[i]).ip == host.ip
                    &&& mdns[i].hostname == Some(name)
                    &&& forall|j: int|
                        0 <= j < i && (#[trigger] mdns[j]).ip == host.ip ==> mdns[j].hostname
                            is None
                }
            &&& host.hostname is None ==> forall|j: int|
                0 <= j < mdns.len() && (#[trigger] mdns[j]).ip == host.ip ==> mdns[j].hostname
                    is None
            &&& host.mac matches Some(mac) ==> exists|i: int|
                {
                    &&& 0 <= i < arp.len()
                    &&& (#[trigger] arp[i]).ip == host.ip
                    &&& arp[i].mac == mac
                    &&& forall|j: int| 0 <= j < i ==> (#[trigger] arp[j]).ip != host.ip
                }
            &&& host.mac is None ==> forall|j: int|
                0 <= j < arp.len() ==> (#[trigger] arp[j]).ip != host.ip
            &&& host.is_known_server <==> known.contains(host.ip)
        }),
{
    let ip = hosts[at].ip;
    assert(hosts[at] == host_at(mdns, arp, known, ip));
    assert(listed(hosts, ip));
    lemma_first_name(mdns, ip);
    lemma_first_mac(arp, ip);
}

/// Every address that a sweep found stands in the merged list, once, and the list is in the order
/// of the addresses: those of version 4 first, and each kind by its number.
pub proof fn found_addresses_are_listed_once(
    hosts: Seq<HostView>,
    mdns: Seq<FindingView>,
    pinged: Seq<IpAddr>,
    arp: Seq<ArpView>,
    known: Seq<IpAddr>,
)
    requires
        is_merged(hosts, mdns, pinged, arp, known),
    ensures
        forall|i: int|
            0 <= i < mdns.len() ==> exists|k: int|
                0 <= k < hosts.len() && (#[trigger] hosts[k]).ip == (#[trigger] mdns[i]).ip,
        forall|i: int|
            0 <= i < pinged.len() ==> exists|k: int|
                0 <= k < hosts.len() && (#[trigger] hosts[k]).ip == #[trigger] pinged[i],
        forall|i: int|
            0 <= i < arp.len() ==> exists|k: int|
                0 <= k < hosts.len() && (#[trigger] hosts[k]).ip == (#[trigger] arp[i]).ip,
        forall|k: int, l: int|
            0 <= k < l < hosts.len() ==> match (
                (#[trigger] hosts[k]).ip,
                (#[trigger] hosts[l]).ip,
            ) {
                (IpAddr::V4(x), IpAddr::V4(y)) => x < y,
                (IpAddr::V6(x), IpAddr::V6(y)) => x < y,
                (IpAddr::V4(_), IpAddr::V6(_)) => true,
                (IpAddr::V6(_), IpAddr::V4(_)) => false,
            },
{
    assert forall|i: int| 0 <= i < mdns.len() implies exists|k: int|
        0 <= k < hosts.len() && (#[trigger] hosts[k]).ip == (#[trigger] mdns[i]).ip by {
        assert(was_found(mdns, pinged, arp, mdns[i].ip));
        assert(listed(hosts, mdns[i].ip));
    }
    assert forall|i: int| 0 <= i < pinged.len() implies exists|k: int|
        0 <= k < hosts.len() && (#[trigger] hosts[k]).ip == #[trigger] pinged[i] by {
        assert(pinged.contains(pinged[i]));
        assert(was_found(mdns, pinged, arp, pinged[i]));
        assert(listed(hosts, pinged[i]));
    }
    assert forall|i: int| 0 <= i < arp.len() implies exists|k: int|
        0 <= k < hosts.len() && (#[trigger] hosts[k]).ip == (#[trigger] arp[i]).ip by {
        assert(was_found(mdns, pinged, arp, arp[i].ip));
        assert(listed(hosts, arp[i].ip));
    }
}

/// A scan lists an address exactly where one of its sweeps that ended in time found it; a sweep
/// that did not end in time found nothing. A listed host is a known server exactly where its
/// address is one of those that the scan was told.
pub proof fn scans_list_what_their_sweeps_found(
    scan: &Discovery,
    mdns: Option<Vec<MdnsFinding>>,
    pinged: Option<Vec<IpAddr>>,
    arp: Option<Vec<ArpEntry>>,
    r: Vec<DiscoveredHost>,
    ip: IpAddr,
)
    requires
        call_ensures(Discovery::scanned, (scan, mdns, pinged, arp), r),
    ensures
        ({
            let announced = mdns is Some && exists|i: int|
                0 <= i < mdns->0@.len() && (#[trigger] mdns->0@[i]).ip == ip;
            let replied = pinged is Some && pinged->0@.contains(ip);
            let resolved = arp is Some && exists|i: int|
                0 <= i < arp->0@.len() && (#[trigger] arp->0@[i]).ip == ip;
            &&& announced || replied || resolved <==> exists|k: int|
                0 <= k < r@.len() && (#[trigger] r@[k]).ip == ip
            &&& forall|k: int|
                0 <= k < r@.len() ==> ((#[trigger] r@[k]).is_known_server
                    <==> scan.known_servers@.contains(r@[k].ip))
        }),
{
    let hosts = views(r@);
    let names = views(found_or_none(mdns));
    let addresses = found_or_none(pinged);
    let table = views(found_or_none(arp));
    assert(listed(hosts, ip) <==> was_found(names, addresses, table, ip));
    if exists|k: int| 0 <= k < r@.len() && (#[trigger] r@[k]).ip == ip {
        let k = choose|k: int| 0 <= k < r@.len() && (#[trigger] r@[k]).ip == ip;
        assert(hosts[k].ip == ip);
    }
    if listed(hosts, ip) {
        let k = choose|k: int| 0 <= k < hosts.len() && (#[trigger] hosts[k]).ip == ip;
        assert(r@[k].ip == ip);
    }
    if mdns is Some {
        assert forall|i: int| 0 <= i < mdns->0@.len() implies names[i] == (
        #[trigger] mdns->0@[i])@ by {}
        if exists|i: int| 0 <= i < names.len() && (#[trigger] names[i]).ip == ip {
            let i = choose|i: int| 0 <= i < names.len() && (#[trigger] names[i]).ip == ip;
            assert(mdns->0@[i].ip == ip);
        }
        if exists|i: int| 0 <= i < mdns->0@.len() && (#[trigger] mdns->0@[i]).ip == ip {
            let i = choose|i: int| 0 <= i < mdns->0@.len() && (#[trigger] mdns->0@[i]).ip == ip;
            assert(names[i].ip == ip);
        }
    }
    if arp is Some {
        assert forall|i: int| 0 <= i < arp->0@.len() implies table[i] == (
        #[trigger] arp->0@[i])@ by {}
        if exists|i: int| 0 <= i < table.len() && (#[trigger] table[i]).ip == ip {
            let i = choose|i: int| 0 <= i < table.len() && (#[trigger] table[i]).ip == ip;
            assert(arp->0@[i].ip == ip);
        }
        if exists|i: int| 0 <= i < arp->0@.len() && (#[trigger] arp->0@[i]).ip == ip {
            let i = choose|i: int| 0 <= i < arp->0@.len() && (#[trigger] arp->0@[i]).ip == ip;
            assert(table[i].ip == ip);
        }
    }
    assert forall|k: int| 0 <= k < r@.len() implies ((#[trigger] r@[k]).is_known_server
        <==> scan.known_servers@.contains(r@[k].ip)) by {
        assert(hosts[k] == host_at(names, table, scan.known_servers@, hosts[k].ip));
        assert(hosts[k] == r@[k]@);
    }
}

/// A scan takes the network that it was given, whatever interfaces there are; else that of the
/// first usable interface, by its first address, and without one it cannot scan.
pub proof fn given_networks_are_scanned(
    scan: &Discovery,
    interfaces: Option<&Vec<Interface>>,
    r: Result<Cidr, RustmoteError>,
)
    requires
        call_ensures(Discovery::network, (scan, interfaces), r),
    ensures
        scan.cidr matches Some(net) ==> r == Ok::<Cidr, RustmoteError>(net),
        scan.cidr is None && r is Ok ==> interfaces is Some && exists|i: int|
            {
                &&& 0 <= i < interfaces->0@.len()
                &&& !passed_over(#[trigger] interfaces->0@[i])
                &&& forall|j: int| 0 <= j < i ==> passed_over(#[trigger] interfaces->0@[j])
                &&& interfaces->0@[i].v4 matches Some((addr, prefix_len)) && r->Ok_0.spec_addr()
                    == network_start(addr, prefix_len) && r->Ok_0.spec_prefix_len() == prefix_len
            },
        scan.cidr is None && r is Err ==> interfaces is None || forall|j: int|
            0 <= j < interfaces->0@.len() ==> passed_over(#[trigger] interfaces->0@[j]),
{
    if interfaces is Some {
        first_network_is_detected(interfaces->0@);
    }
}

/// The name that comes with an announcement is the announced one without the dots at its end; there
/// is none exactly where an empty one was announced.
pub proof fn names_lose_their_last_dots(hostname: Seq<char>)
    ensures
        announced_name(hostname) is None <==> hostname.len() == 0,
        announced_name(hostname) matches Some(name) ==> {
            &&& name.len() <= hostname.len()
            &&& hostname.take(name.len() as int) == name
            &&& name.len() > 0 ==> name.last() != '.'
            &&& forall|i: int| name.len() <= i < hostname.len() ==> #[trigger] hostname[i] == '.'
        },
{
    lemma_trim_end_dots(hostname);
}

proof fn lemma_trim_end_dots(s: Seq<char>)
    ensures
        ({
            let t = trim_end_char(s, '.');
            &&& t.len() <= s.len()
            &&& s.take(t.len() as int) == t
            &&& t.len() > 0 ==> t.last() != '.'
            &&& forall|i: int| t.len() <= i < s.len() ==> #[trigger] s[i] == '.'
        }),
    decreases s.len(),
{
    if s.len() > 0 && s.last() == '.' {
        let rest = s.drop_last();
        lemma_trim_end_dots(rest);
        let t = trim_end_char(rest, '.');
        assert(s.take(t.len() as int) =~= rest.take(t.len() as int));
        assert forall|i: int| t.len() <= i < s.len() implies #[trigger] s[i] == '.' by {
            if i < rest.len() {
                assert(rest[i] == s[i]);
            }
        }
    } else {
        assert(s.take(s.len() as int) =~= s);
    }
}

/// Whether a text has a colon at each third place, and digits of the hexadecimal system elsewhere.
pub open spec fn is_six_pairs(s: Seq<char>) -> bool {
    &&& s.len() == 17
    &&& forall|i: int|
        0 <= i < 17 ==> if i % 3 == 2 {
            #[trigger] s[i] == ':'
        } else {
            '0' <= s[i] <= '9' || 'a' <= s[i] <= 'f' || 'A' <= s[i] <= 'F'
        }
}

proof fn lemma_split_pair(s: Seq<char>)
    requires
        s.len() >= 3,
        s[0] != ':',
        s[1] != ':',
        s[2] == ':',
    ensures
        split(s, ':') == seq![s.take(2)] + split(s.skip(3), ':'),
{
    lemma_first_of(s, ':', 2);
}

/// A hardware address is six pairs of digits of the hexadecimal system, with a colon between two
/// pairs, and nothing else is one.
#[verifier::rlimit(60)]
pub proof fn hardware_addresses_are_six_pairs(s: &str, r: bool)
    requires
        call_ensures(looks_like_mac, (s,), r),
    ensures
        r <==> is_six_pairs(s@),
{
    let t = s@;
    let parts = split(t, ':');
    if is_six_pairs(t) {
        assert(t[2] == ':' && t[5] == ':' && t[8] == ':' && t[11] == ':' && t[14] == ':');
        let rest1 = t.skip(3);
        let rest2 = rest1.skip(3);
        let rest3 = rest2.skip(3);
        let rest4 = rest3.skip(3);
        let rest5 = rest4.skip(3);
        assert forall|i: int| 0 <= i < 14 implies rest1[i] == t[i + 3] by {}
        assert forall|i: int| 0 <= i < 11 implies rest2[i] == t[i + 6] by {}
        assert forall|i: int| 0 <= i < 8 implies rest3[i] == t[i + 9] by {}
        assert forall|i: int| 0 <= i < 5 implies rest4[i] == t[i + 12] by {}
        assert forall|i: int| 0 <= i < 2 implies rest5[i] == t[i + 15] by {}
        assert(t[0] != ':' && t[1] != ':');
        lemma_split_pair(t);
        assert(rest1[0] == t[3] && rest1[1] == t[4] && rest1[2] == t[5]);
        lemma_split_pair(rest1);
        assert(rest2[0] == t[6] && rest2[1] == t[7] && rest2[2] == t[8]);
        lemma_split_pair(rest2);
        assert(rest3[0] == t[9] && rest3[1] == t[10] && rest3[2] == t[11]);
        lemma_split_pair(rest3);
        assert(rest4[0] == t[12] && rest4[1] == t[13] && rest4[2] == t[14]);
        lemma_split_pair(rest4);
        assert(rest5[0] == t[15] && rest5[1] == t[16]);
        lemma_first_of(rest5, ':', 2);
        assert(split(rest5, ':') == seq![rest5]);
        assert(parts =~= seq![
            t.take(2),
            rest1.take(2),
            rest2.take(2),
            rest3.take(2),
            rest4.take(2),
            rest5,
        ]);
        assert forall|i: int| 0 <= i < parts.len() implies is_hex_pair(#[trigger] parts[i]) by {
            assert(parts[i][0] == t[3 * i] && parts[i][1] == t[3 * i + 1]);
        }
    }
    if is_mac(t) {
        split_texts_join_again(t, ':');
        let colon = seq![':'];
        assert(is_hex_pair(parts[0]) && is_hex_pair(parts[1]) && is_hex_pair(parts[2]));
        assert(is_hex_pair(parts[3]) && is_hex_pair(parts[4]) && is_hex_pair(parts[5]));
        let left = parts.skip(1);
        let left2 = left.skip(1);
        let left3 = left2.skip(1);
        let left4 = left3.skip(1);
        let left5 = left4.skip(1);
        lemma_join_first(parts, colon);
        lemma_join_first(left, colon);
        lemma_join_first(left2, colon);
        lemma_join_first(left3, colon);
        lemma_join_first(left4, colon);
        assert(join(left5, colon) == parts[5]);
        assert(t =~= seq![
            parts[0][0],
            parts[0][1],
            ':',
            parts[1][0],
            parts[1][1],
            ':',
            parts[2][0],
            parts[2][1],
            ':',
            parts[3][0],
            parts[3][1],
            ':',
            parts[4][0],
            parts[4][1],
            ':',
            parts[5][0],
            parts[5][1],
        ]);
    }
}

} // verus!
