use port_forwarder::addr::{IpAddress, NetPattern, SocketAddress};
use port_forwarder::admission::{Admission, Verdict};
use port_forwarder::engine::{EngineAction, ForwardEngine, Protocol, RelayStatus};
use port_forwarder::forward_config::{Entry, ForwardSessionConfig, RawRule};
use port_forwarder::tcp_relay::{AcceptAction, CopyAction, DialAction, Slot, TcpRelay};
use port_forwarder::udp_relay::{DatagramAction, Session, UdpRelay};

fn rule(allow_nets: &[&str], max_connections: i64) -> ForwardSessionConfig {
    ForwardSessionConfig::from_fields(&RawRule {
        local: Entry::Present("0.0.0.0:1234".to_string()),
        remote: Entry::Present("127.0.0.1:2233".to_string()),
        enable_tcp: Entry::Missing,
        enable_udp: Entry::Missing,
        conn_bufsize: Entry::Present(1500),
        allow_nets: Entry::Present(allow_nets.iter().map(|s| s.to_string()).collect()),
        max_connections: Entry::Present(max_connections),
    })
    .unwrap()
}

fn peer(ip: IpAddress, port: u16) -> SocketAddress {
    SocketAddress { ip, port }
}

const INSIDE: IpAddress = IpAddress::V4(0x0A000005);
const OUTSIDE: IpAddress = IpAddress::V4(0xC0A80001);

#[test]
fn admission_of_rule_parses_the_networks() {
    let a = Admission::of_rule(&rule(&["10.0.0.0/8", "192.168.1.1"], 7));
    assert_eq!(
        a,
        Admission {
            nets: vec![
                NetPattern { network: IpAddress::V4(0x0A000000), prefix_len: 8 },
                NetPattern { network: IpAddress::V4(0xC0A80101), prefix_len: 32 }
            ],
            limit: 7
        }
    );
}

#[test]
fn networks_are_none_for_a_rule_with_a_bad_pattern() {
    let mut r = rule(&["10.0.0.0/8"], 0);
    assert!(r.is_valid());
    assert_eq!(r.networks(), Some(vec![NetPattern { network: IpAddress::V4(0x0A000000), prefix_len: 8 }]));
    r.allow_nets.push("ten".to_string());
    assert_eq!(r.networks(), None);
    assert!(!r.is_valid());
    let mut r = rule(&[], 0);
    r.conn_bufsize = 0;
    assert!(!r.is_valid());
    let mut r = rule(&[], 0);
    r.local = "somewhere".to_string();
    assert!(!r.is_valid());
    let mut r = rule(&[], 0);
    r.remote = "1.1.1.1".to_string();
    assert!(!r.is_valid());
}

#[test]
fn empty_allow_list_allows_all() {
    let a = Admission { nets: vec![], limit: 0 };
    assert!(a.allows(IpAddress::V4(0)));
    assert!(a.allows(OUTSIDE));
    assert_eq!(a.decide(OUTSIDE, 1000), Verdict::Admit);
}

#[test]
fn allow_list_is_checked_before_capacity() {
    let a = Admission::of_rule(&rule(&["10.0.0.0/8"], 2));
    assert!(a.allows(INSIDE));
    assert!(!a.allows(OUTSIDE));
    assert_eq!(a.decide(INSIDE, 0), Verdict::Admit);
    assert_eq!(a.decide(INSIDE, 1), Verdict::Admit);
    assert_eq!(a.decide(INSIDE, 2), Verdict::OverCapacity);
    assert_eq!(a.decide(INSIDE, 3), Verdict::OverCapacity);
    assert_eq!(a.decide(OUTSIDE, 0), Verdict::NotAllowed);
    assert_eq!(a.decide(OUTSIDE, 2), Verdict::NotAllowed);
}

#[test]
fn non_positive_limit_is_no_limit() {
    for limit in [0, -1, i64::MIN] {
        let a = Admission { nets: vec![], limit };
        assert!(a.fits(0));
        assert!(a.fits(usize::MAX));
    }
    let a = Admission { nets: vec![], limit: 1 };
    assert!(a.fits(0));
    assert!(!a.fits(1));
    let a = Admission { nets: vec![], limit: i64::MAX };
    assert!(a.fits(5));
}

#[test]
fn tcp_relay_starts_empty() {
    let relay = TcpRelay::new(&rule(&["10.0.0.0/8"], 2));
    assert_eq!(relay.bufsize, 1500);
    assert_eq!(relay.slots, vec![]);
    assert_eq!(relay.active(), 0);
    assert_eq!(relay.admission.limit, 2);
    assert_eq!(relay.peer(0), None);
}

#[test]
fn tcp_refuses_clients_outside_the_allow_list() {
    let mut relay = TcpRelay::new(&rule(&["10.0.0.0/8"], 0));
    let before = relay.clone();
    assert_eq!(relay.accept(peer(OUTSIDE, 4000)), AcceptAction::RefuseNotAllowed);
    assert_eq!(relay, before);
    assert_eq!(relay.accept(peer(INSIDE, 4000)), AcceptAction::Dial { conn: 0 });
    assert_eq!(relay.active(), 1);
    assert_eq!(relay.peer(0), Some(peer(INSIDE, 4000)));
}

#[test]
fn tcp_limit_refuses_the_next_connection_until_one_closes() {
    let mut relay = TcpRelay::new(&rule(&[], 2));
    assert_eq!(relay.accept(peer(IpAddress::V4(1), 1)), AcceptAction::Dial { conn: 0 });
    assert_eq!(relay.accept(peer(IpAddress::V4(2), 2)), AcceptAction::Dial { conn: 1 });
    assert_eq!(relay.dial_finished(0, true), DialAction::StartRelay { bufsize: 1500 });
    assert_eq!(relay.dial_finished(1, true), DialAction::StartRelay { bufsize: 1500 });
    assert_eq!(relay.active(), 2);
    let full = relay.clone();
    assert_eq!(relay.accept(peer(IpAddress::V4(3), 3)), AcceptAction::RefuseOverCapacity);
    assert_eq!(relay, full);
    assert_eq!(relay.copy_ended(0), CopyAction::ShutdownBoth);
    assert_eq!(relay.active(), 1);
    assert_eq!(relay.accept(peer(IpAddress::V4(3), 3)), AcceptAction::Dial { conn: 2 });
    assert_eq!(relay.active(), 2);
    assert_eq!(relay.accept(peer(IpAddress::V4(4), 4)), AcceptAction::RefuseOverCapacity);
}

#[test]
fn tcp_close_is_counted_once() {
    let mut relay = TcpRelay::new(&rule(&[], 1));
    assert_eq!(relay.accept(peer(IpAddress::V4(1), 1)), AcceptAction::Dial { conn: 0 });
    assert_eq!(relay.slots, vec![Slot::Dialing(peer(IpAddress::V4(1), 1))]);
    assert_eq!(relay.copy_ended(0), CopyAction::Ignore);
    assert_eq!(relay.dial_finished(0, true), DialAction::StartRelay { bufsize: 1500 });
    assert_eq!(relay.slots, vec![Slot::Relaying(peer(IpAddress::V4(1), 1))]);
    assert_eq!(relay.dial_finished(0, true), DialAction::Ignore);
    assert_eq!(relay.dial_finished(0, false), DialAction::Ignore);
    assert_eq!(relay.active(), 1);
    assert_eq!(relay.copy_ended(0), CopyAction::ShutdownBoth);
    assert_eq!(relay.slots, vec![Slot::Closing]);
    assert_eq!(relay.active(), 0);
    assert_eq!(relay.peer(0), None);
    assert_eq!(relay.copy_ended(0), CopyAction::Release);
    assert_eq!(relay.slots, vec![Slot::Free]);
    assert_eq!(relay.active(), 0);
    assert_eq!(relay.copy_ended(0), CopyAction::Ignore);
    assert_eq!(relay.copy_ended(7), CopyAction::Ignore);
    assert_eq!(relay.dial_finished(7, true), DialAction::Ignore);
    assert_eq!(relay.slots, vec![Slot::Free]);
}

#[test]
fn tcp_failed_dial_gives_the_slot_back() {
    let mut relay = TcpRelay::new(&rule(&[], 1));
    assert_eq!(relay.accept(peer(IpAddress::V4(1), 1)), AcceptAction::Dial { conn: 0 });
    assert_eq!(relay.accept(peer(IpAddress::V4(2), 2)), AcceptAction::RefuseOverCapacity);
    assert_eq!(relay.dial_finished(0, false), DialAction::CloseLocal);
    assert_eq!(relay.slots, vec![Slot::Free]);
    assert_eq!(relay.active(), 0);
    assert_eq!(relay.accept(peer(IpAddress::V4(2), 2)), AcceptAction::Dial { conn: 0 });
    assert_eq!(relay.slots, vec![Slot::Dialing(peer(IpAddress::V4(2), 2))]);
}

#[test]
fn tcp_closing_slot_is_not_reused() {
    let mut relay = TcpRelay::new(&rule(&[], 0));
    assert_eq!(relay.accept(peer(IpAddress::V4(1), 1)), AcceptAction::Dial { conn: 0 });
    assert_eq!(relay.accept(peer(IpAddress::V4(2), 2)), AcceptAction::Dial { conn: 1 });
    assert_eq!(relay.dial_finished(0, true), DialAction::StartRelay { bufsize: 1500 });
    assert_eq!(relay.copy_ended(0), CopyAction::ShutdownBoth);
    assert_eq!(relay.accept(peer(IpAddress::V4(3), 3)), AcceptAction::Dial { conn: 2 });
    assert_eq!(relay.copy_ended(0), CopyAction::Release);
    assert_eq!(relay.accept(peer(IpAddress::V4(4), 4)), AcceptAction::Dial { conn: 0 });
    assert_eq!(
        relay.slots,
        vec![Slot::Dialing(peer(IpAddress::V4(4), 4)), Slot::Dialing(peer(IpAddress::V4(2), 2)), Slot::Dialing(peer(IpAddress::V4(3), 3))]
    );
    assert_eq!(relay.active(), 3);
}

#[test]
fn udp_relay_starts_empty() {
    let relay = UdpRelay::new(&rule(&[], 3), 60);
    assert_eq!(relay.idle_timeout, 60);
    assert_eq!(relay.sessions, vec![]);
    assert_eq!(relay.find(peer(IpAddress::V4(1), 1)), 0);
}

#[test]
fn udp_session_is_reused() {
    let mut relay = UdpRelay::new(&rule(&[], 0), 60);
    assert_eq!(relay.datagram(peer(IpAddress::V4(1), 1), 100), DatagramAction::OpenAndForward);
    assert_eq!(relay.datagram(peer(IpAddress::V4(1), 1), 101), DatagramAction::Forward);
    assert_eq!(relay.sessions, vec![Session { client: peer(IpAddress::V4(1), 1), last_activity: 101 }]);
    assert_eq!(relay.datagram(peer(IpAddress::V4(1), 2), 102), DatagramAction::OpenAndForward);
    assert_eq!(relay.datagram(peer(IpAddress::V4(1), 1), 103), DatagramAction::Forward);
    assert_eq!(
        relay.sessions,
        vec![
            Session { client: peer(IpAddress::V4(1), 1), last_activity: 103 },
            Session { client: peer(IpAddress::V4(1), 2), last_activity: 102 }
        ]
    );
    assert_eq!(relay.find(peer(IpAddress::V4(1), 2)), 1);
    assert_eq!(relay.find(peer(IpAddress::V4(9), 9)), 2);
}

#[test]
fn udp_idle_session_expires_and_client_starts_anew() {
    let mut relay = UdpRelay::new(&rule(&[], 0), 60);
    assert_eq!(relay.datagram(peer(IpAddress::V4(1), 1), 100), DatagramAction::OpenAndForward);
    assert_eq!(relay.datagram(peer(IpAddress::V4(2), 2), 130), DatagramAction::OpenAndForward);
    assert_eq!(relay.sweep(160), vec![]);
    assert_eq!(relay.sessions.len(), 2);
    assert_eq!(relay.sweep(161), vec![peer(IpAddress::V4(1), 1)]);
    assert_eq!(relay.sessions, vec![Session { client: peer(IpAddress::V4(2), 2), last_activity: 130 }]);
    assert_eq!(relay.datagram(peer(IpAddress::V4(1), 1), 162), DatagramAction::OpenAndForward);
    assert_eq!(
        relay.sessions,
        vec![
            Session { client: peer(IpAddress::V4(2), 2), last_activity: 130 },
            Session { client: peer(IpAddress::V4(1), 1), last_activity: 162 }
        ]
    );
    assert_eq!(relay.sweep(1000), vec![peer(IpAddress::V4(2), 2), peer(IpAddress::V4(1), 1)]);
    assert_eq!(relay.sessions, vec![]);
}

#[test]
fn udp_sweep_tolerates_a_clock_that_went_back() {
    let mut relay = UdpRelay::new(&rule(&[], 0), 0);
    assert_eq!(relay.datagram(peer(IpAddress::V4(1), 1), 100), DatagramAction::OpenAndForward);
    assert_eq!(relay.sweep(50), vec![]);
    assert_eq!(relay.sweep(100), vec![]);
    assert_eq!(relay.sweep(101), vec![peer(IpAddress::V4(1), 1)]);
    let mut relay = UdpRelay::new(&rule(&[], 0), u64::MAX);
    assert_eq!(relay.datagram(peer(IpAddress::V4(1), 1), 0), DatagramAction::OpenAndForward);
    assert_eq!(relay.sweep(u64::MAX), vec![]);
}

#[test]
fn udp_reply_renews_the_session() {
    let mut relay = UdpRelay::new(&rule(&[], 0), 60);
    assert!(!relay.reply(peer(IpAddress::V4(1), 1), 90));
    assert_eq!(relay.sessions, vec![]);
    assert_eq!(relay.datagram(peer(IpAddress::V4(1), 1), 100), DatagramAction::OpenAndForward);
    assert!(relay.reply(peer(IpAddress::V4(1), 1), 150));
    assert_eq!(relay.sessions, vec![Session { client: peer(IpAddress::V4(1), 1), last_activity: 150 }]);
    assert_eq!(relay.sweep(200), vec![]);
    assert_eq!(relay.sweep(211), vec![peer(IpAddress::V4(1), 1)]);
    assert!(!relay.reply(peer(IpAddress::V4(1), 1), 212));
}

#[test]
fn udp_admission_limits_new_sessions_only() {
    let mut relay = UdpRelay::new(&rule(&["10.0.0.0/8"], 1), 60);
    assert_eq!(relay.datagram(peer(OUTSIDE, 1), 1), DatagramAction::DropNotAllowed);
    assert_eq!(relay.sessions, vec![]);
    assert_eq!(relay.datagram(peer(INSIDE, 1), 2), DatagramAction::OpenAndForward);
    assert_eq!(relay.datagram(peer(INSIDE, 2), 3), DatagramAction::DropOverCapacity);
    assert_eq!(relay.datagram(peer(INSIDE, 1), 4), DatagramAction::Forward);
    assert_eq!(relay.sessions, vec![Session { client: peer(INSIDE, 1), last_activity: 4 }]);
    assert_eq!(relay.sweep(65), vec![peer(INSIDE, 1)]);
    assert_eq!(relay.datagram(peer(INSIDE, 2), 66), DatagramAction::OpenAndForward);
}

#[test]
fn engine_runs_the_enabled_relays() {
    let mut r = rule(&[], 0);
    r.enable_udp = false;
    let mut engine = ForwardEngine::new(&r);
    assert_eq!(engine, ForwardEngine { tcp: RelayStatus::Starting, udp: RelayStatus::Disabled });
    assert!(engine.launches(Protocol::Tcp));
    assert!(!engine.launches(Protocol::Udp));
    assert_eq!(engine.next_action(), EngineAction::Wait);
    assert_eq!(engine.bind_finished(Protocol::Udp, false), EngineAction::Wait);
    assert_eq!(engine.bind_finished(Protocol::Tcp, true), EngineAction::Wait);
    assert_eq!(engine.tcp, RelayStatus::Running);
    assert!(!engine.launches(Protocol::Tcp));
    assert_eq!(engine.relay_exited(Protocol::Tcp), EngineAction::Finish);
    assert_eq!(engine, ForwardEngine { tcp: RelayStatus::Stopped, udp: RelayStatus::Disabled });
}

#[test]
fn engine_waits_for_both_relays() {
    let mut engine = ForwardEngine::new(&rule(&[], 0));
    assert_eq!(engine.bind_finished(Protocol::Tcp, true), EngineAction::Wait);
    assert_eq!(engine.relay_exited(Protocol::Udp), EngineAction::Wait);
    assert_eq!(engine.udp, RelayStatus::Starting);
    assert_eq!(engine.bind_finished(Protocol::Udp, true), EngineAction::Wait);
    assert_eq!(engine.relay_exited(Protocol::Tcp), EngineAction::Wait);
    assert_eq!(engine.relay_exited(Protocol::Udp), EngineAction::Finish);
}

#[test]
fn engine_bind_failure_is_fatal() {
    let mut engine = ForwardEngine::new(&rule(&[], 0));
    assert_eq!(engine.bind_finished(Protocol::Tcp, true), EngineAction::Wait);
    assert_eq!(engine.bind_finished(Protocol::Udp, false), EngineAction::Abort);
    assert_eq!(engine, ForwardEngine { tcp: RelayStatus::Running, udp: RelayStatus::Failed });
    assert_eq!(engine.relay_exited(Protocol::Tcp), EngineAction::Abort);
}

#[test]
fn engine_of_a_rule_without_protocols_is_done() {
    let mut r = rule(&[], 0);
    r.enable_tcp = false;
    r.enable_udp = false;
    let engine = ForwardEngine::new(&r);
    assert_eq!(engine.next_action(), EngineAction::Finish);
}

#[test]
fn udp_forget_removes_one_session() {
    let mut relay = UdpRelay::new(&rule(&[], 0), 60);
    assert!(!relay.forget(peer(IpAddress::V4(1), 1)));
    assert_eq!(relay.datagram(peer(IpAddress::V4(1), 1), 1), DatagramAction::OpenAndForward);
    assert_eq!(relay.datagram(peer(IpAddress::V4(2), 2), 2), DatagramAction::OpenAndForward);
    assert_eq!(relay.datagram(peer(IpAddress::V4(3), 3), 3), DatagramAction::OpenAndForward);
    assert!(relay.forget(peer(IpAddress::V4(2), 2)));
    assert_eq!(
        relay.sessions,
        vec![
            Session { client: peer(IpAddress::V4(1), 1), last_activity: 1 },
            Session { client: peer(IpAddress::V4(3), 3), last_activity: 3 }
        ]
    );
    assert!(!relay.forget(peer(IpAddress::V4(2), 2)));
    assert!(!relay.reply(peer(IpAddress::V4(2), 2), 4));
    assert_eq!(relay.datagram(peer(IpAddress::V4(2), 2), 5), DatagramAction::OpenAndForward);
}

#[test]
fn ipv6_clients_are_admitted_by_ipv6_patterns() {
    let mut relay = TcpRelay::new(&rule(&["2001:db8::/32", "10.0.0.0/8"], 0));
    let inside = peer(IpAddress::V6(0x2001_0db8_0000_0001, 9), 4000);
    let outside = peer(IpAddress::V6(0x2001_0db9_0000_0001, 9), 4000);
    assert_eq!(relay.accept(outside), AcceptAction::RefuseNotAllowed);
    assert_eq!(relay.accept(inside), AcceptAction::Dial { conn: 0 });
    assert_eq!(relay.accept(peer(INSIDE, 1)), AcceptAction::Dial { conn: 1 });
    let mut relay = UdpRelay::new(&rule(&["::1"], 0), 60);
    assert_eq!(relay.datagram(peer(IpAddress::V6(0, 1), 5), 1), DatagramAction::OpenAndForward);
    assert_eq!(relay.datagram(peer(IpAddress::V6(0, 2), 5), 1), DatagramAction::DropNotAllowed);
    assert_eq!(relay.datagram(peer(IpAddress::V4(1), 5), 1), DatagramAction::DropNotAllowed);
}
