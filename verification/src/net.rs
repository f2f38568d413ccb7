//! Network addresses.
use crate::text::{all_digits, split, split_once, value};
use vstd::arithmetic::power2::pow2;
use vstd::prelude::*;

verus! {

/// An IP address, as the number that its bits write.
#[derive(Debug, Clone, Copy, PartialEq, Eq, Structural)]
pub enum IpAddr {
    V4(u32),
    V6(u128),
}

/// Whether an address stands before another: those of version 4 before those of version 6, and
/// each by their number.
pub open spec fn ip_before(a: IpAddr, b: IpAddr) -> bool {
    match (a, b) {
        (IpAddr::V4(x), IpAddr::V4(y)) => x < y,
        (IpAddr::V4(_), IpAddr::V6(_)) => true,
        (IpAddr::V6(_), IpAddr::V4(_)) => false,
        (IpAddr::V6(x), IpAddr::V6(y)) => x < y,
    }
}

/// Tests whether an address stands before another.
pub fn comes_before(a: IpAddr, b: IpAddr) -> (r: bool)
    ensures
        r == ip_before(a, b),
{
    match (a, b) {
        (IpAddr::V4(x), IpAddr::V4(y)) => x < y,
        (IpAddr::V4(_), IpAddr::V6(_)) => true,
        (IpAddr::V6(_), IpAddr::V4(_)) => false,
        (IpAddr::V6(x), IpAddr::V6(y)) => x < y,
    }
}

/// A network of version 4: an address in it, and how many leading bits its addresses share.
#[derive(Debug, Clone, Copy, PartialEq, Eq, Structural)]
pub struct Cidr {
    pub(crate) addr: u32,
    pub(crate) prefix_len: u8,
}

/// How many addresses a network with a prefix has.
pub open spec fn network_size(prefix_len: u8) -> int {
    pow2((32 - prefix_len) as nat) as int
}

/// The first address of the network that an address is in.
pub open spec fn network_start(addr: u32, prefix_len: u8) -> int {
    addr - addr as int % network_size(prefix_len)
}

/// The addresses of a network that hosts can have: all but its first and its last, which stay out
/// where there are more than two.
pub open spec fn host_addresses(addr: u32, prefix_len: u8) -> Seq<u32> {
    let start = network_start(addr, prefix_len);
    let size = network_size(prefix_len);
    if prefix_len < 31 {
        Seq::new((size - 2) as nat, |i: int| (start + 1 + i) as u32)
    } else {
        Seq::new(size as nat, |i: int| (start + i) as u32)
    }
}

/// `Ipv4Net::new` of ipnet: a network, unless the prefix is longer than an address.
#[verifier::external_body]
fn ipnet_new(addr: u32, prefix_len: u8) -> (r: Option<(u32, u8)>)
    ensures
        r == if prefix_len <= 32 {
            Some((addr, prefix_len))
        } else {
            None
        },
{
    ipnet::Ipv4Net::new(addr.into(), prefix_len).ok().map(|n| (n.addr().into(), n.prefix_len()))
}

/// `Ipv4Net::trunc` of ipnet: the same network by its first address.
#[verifier::external_body]
fn ipnet_trunc(addr: u32, prefix_len: u8) -> (r: (u32, u8))
    requires
        prefix_len <= 32,
    ensures
        r.0 == network_start(addr, prefix_len),
        r.1 == prefix_len,
{
    let net = ipnet::Ipv4Net::new(addr.into(), prefix_len).unwrap().trunc();
    (net.addr().into(), net.prefix_len())
}

/// `Ipv4Net::hosts` of ipnet, gathered: the addresses that hosts can have, in ascending order.
#[verifier::external_body]
fn ipnet_hosts(addr: u32, prefix_len: u8) -> (r: Vec<u32>)
    requires
        prefix_len <= 32,
    ensures
        r@ == host_addresses(addr, prefix_len),
{
    ipnet::Ipv4Net::new(addr.into(), prefix_len).unwrap().hosts().map(u32::from).collect()
}

/// Whether a text is a number of at most so many digits that is less than a limit. Zeros in front
/// count as digits.
pub open spec fn is_number(s: Seq<char>, most_digits: nat, limit: nat) -> bool {
    0 < s.len() <= most_digits && all_digits(s) && value(s) < limit
}

/// The address that four numbers with dots between them write.
pub open spec fn parsed_quad(text: Seq<char>) -> Option<u32> {
    let parts = split(text, '.');
    if parts.len() == 4 && forall|i: int| 0 <= i < 4 ==> is_number(#[trigger] parts[i], 3, 256) {
        Some(
            (value(parts[0]) * 0x100_0000 + value(parts[1]) * 0x1_0000 + value(parts[2]) * 0x100
                + value(parts[3])) as u32,
        )
    } else {
        None
    }
}

/// The network that a text such as `192.168.1.0/24` writes: an address, a slash and a prefix
/// length.
pub open spec fn parsed_network(text: Seq<char>) -> Option<(u32, u8)> {
    match split_once(text, '/') {
        Some((quad, prefix)) => match parsed_quad(quad) {
            Some(addr) => if is_number(prefix, 2, 33) {
                Some((addr, value(prefix) as u8))
            } else {
                None
            },
            None => None,
        },
        None => None,
    }
}

/// `Ipv4Net::from_str` of ipnet: the network that a text writes, and none where it writes none. The
/// parser takes four numbers of up to three digits below 256 with dots between them, a slash, and a
/// number of up to two digits below 33, and nothing else.
#[verifier::external_body]
fn ipnet_from_str(text: &str) -> (r: Option<(u32, u8)>)
    ensures
        r == parsed_network(text@),
{
    text.parse::<ipnet::Ipv4Net>().ok().map(|n| (n.addr().into(), n.prefix_len()))
}

impl Cidr {
    #[verifier::type_invariant]
    spec fn prefix_fits(self) -> bool {
        self.prefix_len <= 32
    }

    /// The address that the network was written with.
    pub closed spec fn spec_addr(&self) -> u32 {
        self.addr
    }

    /// How many leading bits name the network.
    pub closed spec fn spec_prefix_len(&self) -> u8 {
        self.prefix_len
    }

    /// The network that an address is in; none where the prefix is longer than an address.
    pub fn new(addr: u32, prefix_len: u8) -> (r: Option<Cidr>)
        ensures
            r is Some <==> prefix_len <= 32,
            r matches Some(net) ==> net.spec_addr() == addr && net.spec_prefix_len() == prefix_len,
    {
        match ipnet_new(addr, prefix_len) {
            Some((addr, prefix_len)) => Some(Cidr { addr, prefix_len }),
            None => None,
        }
    }

    /// The network that a text such as `192.168.1.0/24` writes.
    pub fn parse(text: &str) -> (r: Option<Cidr>)
        ensures
            match parsed_network(text@) {
                Some((addr, prefix_len)) => r matches Some(net) && net.spec_addr() == addr
                    && net.spec_prefix_len() == prefix_len,
                None => r is None,
            },
    {
        match ipnet_from_str(text) {
            Some((addr, prefix_len)) => Some(Cidr { addr, prefix_len }),
            None => None,
        }
    }

    /// The address that names the network.
    pub fn addr(&self) -> (r: u32)
        ensures
            r == self.spec_addr(),
    {
        self.addr
    }

    /// How many leading bits the network's addresses share.
    pub fn prefix_len(&self) -> (r: u8)
        ensures
            r == self.spec_prefix_len(),
            r <= 32,
    {
        proof {
            use_type_invariant(self);
        }
        self.prefix_len
    }

    /// The same network, named by its first address.
    pub fn trunc(&self) -> (r: Cidr)
        ensures
            r.spec_addr() == network_start(self.spec_addr(), self.spec_prefix_len()),
            r.spec_prefix_len() == self.spec_prefix_len(),
    {
        proof {
            use_type_invariant(self);
        }
        let (addr, prefix_len) = ipnet_trunc(self.addr, self.prefix_len);
        Cidr { addr, prefix_len }
    }

    /// The addresses of the network that hosts can have, in ascending order.
    pub fn hosts(&self) -> (r: Vec<u32>)
        ensures
            r@ == host_addresses(self.spec_addr(), self.spec_prefix_len()),
    {
        proof {
            use_type_invariant(self);
        }
        ipnet_hosts(self.addr, self.prefix_len)
    }
}

} // verus!
