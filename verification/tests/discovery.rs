use std::time::Duration;

use rustmote::discovery::{
    announced, arp_candidates, auto_detect_cidr, looks_like_mac, merge_results,
    parse_proc_net_arp, ping_budget, rand_u16, ArpEntry, Discovery, Interface, MdnsFinding,
    DEFAULT_SCAN_TIMEOUT,
};
use rustmote::error::RustmoteError;
use rustmote::net::{comes_before, Cidr, IpAddr};
use rustmote::time::TimeSpan;

fn v4(a: u32, b: u32, c: u32, d: u32) -> u32 {
    (a << 24) | (b << 16) | (c << 8) | d
}

/// Reads a dotted quad.
fn read(s: &str) -> Option<IpAddr> {
    let mut octets: Vec<u32> = Vec::new();
    for part in s.split('.') {
        octets.push(part.parse().ok().filter(|n| *n < 256)?);
    }
    if octets.len() != 4 {
        return None;
    }
    Some(IpAddr::V4(v4(octets[0], octets[1], octets[2], octets[3])))
}

fn ip(s: &str) -> IpAddr {
    read(s).unwrap()
}

fn arp(s: &str, mac: &str) -> ArpEntry {
    ArpEntry {
        ip: ip(s),
        mac: mac.to_string(),
    }
}

#[test]
fn merge_dedups_by_ip_across_sources() {
    let mdns = vec![MdnsFinding {
        ip: ip("192.168.1.5"),
        hostname: Some("alpha.local".to_string()),
    }];
    let pinged = vec![ip("192.168.1.5"), ip("192.168.1.7")];
    let table = vec![
        arp("192.168.1.5", "aa:bb:cc:dd:ee:01"),
        arp("192.168.1.9", "aa:bb:cc:dd:ee:02"),
    ];

    let merged = merge_results(&mdns, &pinged, &table, &vec![]);

    // .5 is in all three; .7 ICMP-only; .9 ARP-only → three hosts total.
    assert_eq!(merged.len(), 3);

    let five = merged.iter().find(|h| h.ip == ip("192.168.1.5")).unwrap();
    assert_eq!(five.hostname.as_deref(), Some("alpha.local"));
    assert_eq!(five.mac.as_deref(), Some("aa:bb:cc:dd:ee:01"));

    let seven = merged.iter().find(|h| h.ip == ip("192.168.1.7")).unwrap();
    assert!(seven.hostname.is_none() && seven.mac.is_none());

    let nine = merged.iter().find(|h| h.ip == ip("192.168.1.9")).unwrap();
    assert!(nine.hostname.is_none());
    assert_eq!(nine.mac.as_deref(), Some("aa:bb:cc:dd:ee:02"));
}

#[test]
fn merge_marks_known_servers() {
    let pinged = vec![ip("10.0.0.1"), ip("10.0.0.2")];
    let known = vec![ip("10.0.0.2")];

    let merged = merge_results(&vec![], &pinged, &vec![], &known);
    let one = merged.iter().find(|h| h.ip == ip("10.0.0.1")).unwrap();
    let two = merged.iter().find(|h| h.ip == ip("10.0.0.2")).unwrap();
    assert!(!one.is_known_server);
    assert!(two.is_known_server);
}

#[test]
fn merge_preserves_first_hostname_when_duplicated() {
    let mdns = vec![
        MdnsFinding {
            ip: ip("192.168.1.5"),
            hostname: Some("first.local".to_string()),
        },
        MdnsFinding {
            ip: ip("192.168.1.5"),
            hostname: Some("second.local".to_string()),
        },
    ];
    let merged = merge_results(&mdns, &vec![], &vec![], &vec![]);
    assert_eq!(merged.len(), 1);
    assert_eq!(merged[0].hostname.as_deref(), Some("first.local"));
}

#[test]
fn merge_orders_by_address() {
    let pinged = vec![IpAddr::V6(1), ip("10.0.0.9"), ip("10.0.0.1"), IpAddr::V6(0)];
    let merged = merge_results(&vec![], &pinged, &vec![], &vec![]);
    let order: Vec<IpAddr> = merged.iter().map(|h| h.ip).collect();
    assert_eq!(
        order,
        [ip("10.0.0.1"), ip("10.0.0.9"), IpAddr::V6(0), IpAddr::V6(1)]
    );
    assert!(comes_before(ip("255.255.255.255"), IpAddr::V6(0)));
    assert!(!comes_before(IpAddr::V6(0), ip("0.0.0.0")));
}

#[test]
fn merge_takes_the_first_name_and_hardware_address_there_is() {
    let finding = |name: Option<&str>| MdnsFinding {
        ip: ip("10.0.0.1"),
        hostname: name.map(|n| n.to_string()),
    };
    let mdns = vec![finding(None), finding(Some("a")), finding(Some("b"))];
    let table = vec![arp("10.0.0.1", "m1"), arp("10.0.0.1", "m2")];
    let merged = merge_results(&mdns, &vec![], &table, &vec![]);
    assert_eq!(merged.len(), 1);
    assert_eq!(merged[0].hostname.as_deref(), Some("a"));
    assert_eq!(merged[0].mac.as_deref(), Some("m1"));
}

#[test]
fn parse_arp_skips_header_and_incomplete() {
    let body = "\
IP address       HW type     Flags       HW address            Mask     Device
192.168.1.1     0x1         0x2         ab:cd:ef:12:34:56     *        eth0
192.168.1.99    0x1         0x0         00:00:00:00:00:00     *        eth0
10.0.0.5        0x1         0x2         01:23:45:67:89:ab     *        wlan0
";
    let parsed = parse_proc_net_arp(body, read);
    assert_eq!(parsed.len(), 2);
    assert_eq!(parsed[0].ip, ip("192.168.1.1"));
    assert_eq!(parsed[0].mac, "ab:cd:ef:12:34:56");
    assert_eq!(parsed[1].ip, ip("10.0.0.5"));
}

#[test]
fn parse_arp_rejects_malformed_mac() {
    let body = "\
IP address       HW type     Flags       HW address            Mask     Device
192.168.1.1     0x1         0x2         nothex:xx:xx:xx:xx:xx *        eth0
192.168.1.2     0x1         0x2         aa:bb:cc:dd:ee         *        eth0
";
    assert!(parse_proc_net_arp(body, read).is_empty());
}

#[test]
fn arp_rows_need_an_address_that_is_understood() {
    let body = "head\nnot-an-ip 1 2 aa:bb:cc:dd:ee:ff\n10.0.0.1 1 2\n10.0.0.2 1 2 aa:bb:cc:dd:ee:ff";
    assert_eq!(arp_candidates(body).len(), 2);
    let parsed = parse_proc_net_arp(body, read);
    assert_eq!(parsed.len(), 1);
    assert_eq!(parsed[0].ip, ip("10.0.0.2"));
}

#[test]
fn looks_like_mac_boundaries() {
    assert!(looks_like_mac("00:11:22:33:44:55"));
    assert!(looks_like_mac("AA:BB:CC:DD:EE:FF"));
    assert!(!looks_like_mac(""));
    assert!(!looks_like_mac("00:11:22:33:44"));
    assert!(!looks_like_mac("00:11:22:33:44:55:66"));
    assert!(!looks_like_mac("GG:11:22:33:44:55"));
}

#[test]
fn default_timeout_is_within_spec_budget() {
    assert!(Duration::from_secs(DEFAULT_SCAN_TIMEOUT) < Duration::from_secs(10));
}

#[test]
fn announcements_lose_their_trailing_dots() {
    let found = announced("alpha.local.", &vec![ip("10.0.0.1"), IpAddr::V6(7)]);
    assert_eq!(found.len(), 2);
    assert_eq!(found[1].ip, IpAddr::V6(7));
    assert_eq!(found[0].hostname.as_deref(), Some("alpha.local"));
    assert_eq!(announced("", &vec![ip("10.0.0.1")])[0].hostname, None);
    assert_eq!(
        announced(".", &vec![ip("10.0.0.1")])[0].hostname.as_deref(),
        Some("")
    );
}

#[test]
fn pings_wait_a_quarter_of_the_sweep() {
    assert_eq!(ping_budget(TimeSpan::from_secs(9)), TimeSpan::from_millis(800));
    assert_eq!(ping_budget(TimeSpan::from_secs(2)), TimeSpan::from_millis(500));
    assert_eq!(ping_budget(TimeSpan::from_secs(0)), TimeSpan::from_millis(0));
}

#[test]
fn ping_identifiers_fold_all_bits() {
    assert_eq!(rand_u16(0), 0);
    assert_eq!(rand_u16(0x0001_0002_0004_0008), 15);
    assert_eq!(rand_u16(0xffff_0000_0000_ffff), 0);
    assert_eq!(rand_u16(0x1234), 0x1234);
}

#[test]
fn networks_have_hosts() {
    let net = Cidr::new(v4(192, 168, 1, 77), 24).unwrap();
    assert_eq!(net.trunc().addr(), v4(192, 168, 1, 0));
    assert_eq!(net.trunc().prefix_len(), 24);
    let hosts = net.hosts();
    assert_eq!(hosts.len(), 254);
    assert_eq!(hosts[0], v4(192, 168, 1, 1));
    assert_eq!(hosts[253], v4(192, 168, 1, 254));
    let addr = v4(10, 0, 0, 3);
    assert_eq!(Cidr::new(addr, 32).unwrap().hosts(), [addr]);
    assert_eq!(
        Cidr::new(addr, 31).unwrap().hosts(),
        [v4(10, 0, 0, 2), addr]
    );
    assert_eq!(
        Cidr::new(addr, 30).unwrap().hosts(),
        [v4(10, 0, 0, 1), v4(10, 0, 0, 2)]
    );
    assert_eq!(Cidr::new(addr, 0).unwrap().trunc().addr(), 0);
    assert!(Cidr::new(addr, 33).is_none());
}

#[test]
fn first_usable_interface_names_the_network() {
    let interface = |loopback: bool, v4: Option<(u32, u8)>| Interface { loopback, v4 };
    let list = vec![
        interface(true, Some((v4(127, 0, 0, 1), 8))),
        interface(false, None),
        interface(false, Some((v4(10, 1, 2, 3), 40))),
        interface(false, Some((v4(10, 1, 2, 3), 16))),
        interface(false, Some((v4(10, 9, 9, 9), 24))),
    ];
    let net = auto_detect_cidr(Some(&list)).unwrap();
    assert_eq!((net.addr(), net.prefix_len()), (v4(10, 1, 0, 0), 16));
    assert_eq!(
        auto_detect_cidr(None),
        Err(RustmoteError::DiscoveryNoInterface)
    );
    let given = Cidr::new(v4(1, 2, 3, 4), 24).unwrap();
    let driver = Discovery::new().with_cidr(given);
    assert_eq!(driver.network(None), Ok(given));
    assert_eq!(
        Discovery::default().network(Some(&vec![])),
        Err(RustmoteError::DiscoveryNoInterface)
    );
}

#[test]
fn sweeps_that_run_out_of_time_found_nothing() {
    let driver = Discovery::new()
        .with_timeout(TimeSpan::from_secs(1))
        .with_known_servers(vec![ip("10.0.0.1")]);
    let hosts = driver.scanned(None, Some(vec![ip("10.0.0.1")]), None);
    assert_eq!(hosts.len(), 1);
    assert!(hosts[0].is_known_server);
    assert!(driver.scanned(None, None, None).is_empty());
}

#[test]
fn networks_are_read() {
    assert_eq!(
        Cidr::parse("10.20.30.40/16"),
        Cidr::new(v4(10, 20, 30, 40), 16)
    );
    assert_eq!(Cidr::parse("0.0.0.0/0"), Cidr::new(0, 0));
    for text in ["10.0.0.0", "10.0.0.0/33", "10.0.0.256/8", " 10.0.0.0/8", ""] {
        assert_eq!(Cidr::parse(text), None, "{text:?}");
    }
}

#[test]
fn numbers_in_networks_have_their_bounds() {
    assert_eq!(
        Cidr::parse("010.000.1.255/08"),
        Cidr::new(v4(10, 0, 1, 255), 8)
    );
    assert_eq!(
        Cidr::parse("255.255.255.255/32"),
        Cidr::new(u32::MAX, 32)
    );
    for text in [
        "0010.0.0.0/8",
        "10.0.0.0/008",
        "10.0.0/8",
        "10.0.0.0.0/8",
        "10..0.0/8",
        "10.0.0.0/",
        "10.0.0.0/8/8",
        "10.0.0.0/+8",
        "10.0.0.0/8 ",
        "1\u{661}.0.0.0/8",
    ] {
        assert_eq!(Cidr::parse(text), None, "{text:?}");
    }
}
