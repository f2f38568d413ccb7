use rustmote::mdns::{mdns_service_types, MdnsEvent, MdnsStep, MdnsSweep};
use rustmote::net::IpAddr;
use rustmote::time::TimeSpan;

const MS: u64 = 1_000_000;

fn ms(millis: u64) -> TimeSpan {
    TimeSpan::from_millis(millis)
}

fn receive(service: usize, millis: u64) -> MdnsStep {
    MdnsStep::Receive {
        service,
        wait: ms(millis),
    }
}

fn host(name: &str, addresses: &[u32]) -> MdnsEvent {
    MdnsEvent::Announced {
        hostname: name.to_string(),
        addresses: addresses.iter().map(|n| IpAddr::V4(*n)).collect(),
    }
}

#[test]
fn both_services_are_listened_for() {
    assert_eq!(
        mdns_service_types(),
        ["_ssh._tcp.local.", "_workstation._tcp.local."]
    );
}

#[test]
fn services_have_their_turns_and_silence_brings_a_rest() {
    let (mut sweep, first) = MdnsSweep::begin(ms(9000), 2);
    assert_eq!(first, MdnsStep::ReadTimer);
    assert_eq!(sweep.step(MdnsEvent::Timer(0)), receive(0, 200));
    assert_eq!(sweep.step(MdnsEvent::Silence), MdnsStep::ReadTimer);
    assert_eq!(sweep.step(MdnsEvent::Timer(200 * MS)), receive(1, 200));
    assert_eq!(sweep.step(MdnsEvent::Silence), MdnsStep::ReadTimer);
    assert_eq!(sweep.step(MdnsEvent::Timer(400 * MS)), MdnsStep::Rest(ms(100)));
    assert_eq!(sweep.step(MdnsEvent::Rested), MdnsStep::ReadTimer);
    assert_eq!(sweep.step(MdnsEvent::Timer(500 * MS)), receive(0, 200));
}

#[test]
fn a_round_with_news_is_followed_by_the_next() {
    let (mut sweep, _) = MdnsSweep::begin(ms(9000), 2);
    assert_eq!(sweep.step(MdnsEvent::Timer(0)), receive(0, 200));
    assert_eq!(sweep.step(MdnsEvent::Other), MdnsStep::ReadTimer);
    assert_eq!(sweep.step(MdnsEvent::Timer(1)), receive(1, 200));
    assert_eq!(sweep.step(MdnsEvent::Silence), MdnsStep::ReadTimer);
    assert_eq!(sweep.step(MdnsEvent::Timer(200 * MS)), receive(0, 200));
}

#[test]
fn announcements_are_gathered_and_stay() {
    let (mut sweep, _) = MdnsSweep::begin(ms(9000), 1);
    assert_eq!(sweep.step(MdnsEvent::Timer(0)), receive(0, 200));
    assert_eq!(sweep.step(host("alpha.local.", &[1, 2])), MdnsStep::ReadTimer);
    assert_eq!(sweep.step(MdnsEvent::Timer(5)), receive(0, 200));
    assert_eq!(sweep.step(host("", &[3])), MdnsStep::ReadTimer);
    assert_eq!(sweep.step(MdnsEvent::Timer(9000 * MS)), MdnsStep::Done);
    let found: Vec<(IpAddr, Option<&str>)> = sweep
        .findings
        .iter()
        .map(|f| (f.ip, f.hostname.as_deref()))
        .collect();
    assert_eq!(
        found,
        [
            (IpAddr::V4(1), Some("alpha.local")),
            (IpAddr::V4(2), Some("alpha.local")),
            (IpAddr::V4(3), None),
        ]
    );
}

#[test]
fn waits_shrink_towards_the_end() {
    let (mut sweep, _) = MdnsSweep::begin(ms(1000), 1);
    assert_eq!(sweep.step(MdnsEvent::Timer(950 * MS)), receive(0, 50));
    assert_eq!(sweep.step(MdnsEvent::Silence), MdnsStep::ReadTimer);
    assert_eq!(
        sweep.step(MdnsEvent::Timer(970 * MS)),
        MdnsStep::Rest(ms(30))
    );
    assert_eq!(sweep.step(MdnsEvent::Rested), MdnsStep::ReadTimer);
    assert_eq!(sweep.step(MdnsEvent::Timer(1000 * MS - 1)), {
        MdnsStep::Receive {
            service: 0,
            wait: TimeSpan::from_nanos(1).unwrap(),
        }
    });
    assert_eq!(sweep.step(MdnsEvent::Silence), MdnsStep::ReadTimer);
    assert_eq!(sweep.step(MdnsEvent::Timer(1000 * MS)), MdnsStep::Done);
}

#[test]
fn without_services_the_sweep_rests_until_the_end() {
    let (mut sweep, _) = MdnsSweep::begin(ms(150), 0);
    assert_eq!(sweep.step(MdnsEvent::Timer(0)), MdnsStep::Rest(ms(100)));
    assert_eq!(sweep.step(MdnsEvent::Rested), MdnsStep::ReadTimer);
    assert_eq!(sweep.step(MdnsEvent::Timer(100 * MS)), MdnsStep::Rest(ms(50)));
    assert_eq!(sweep.step(MdnsEvent::Rested), MdnsStep::ReadTimer);
    assert_eq!(sweep.step(MdnsEvent::Timer(150 * MS)), MdnsStep::Done);
    assert!(sweep.findings.is_empty());
}
