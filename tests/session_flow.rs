use std::io;

use nyat::error::{DnsError, Error, StunError};
use nyat::mapper::MappingInfo;
use nyat::net::{IpAddr, SocketAddr};
use nyat::session::{Action, Event, Phase, Protocol, Session, Ticker, RETRY_LIMIT};

fn addr(a: u8, b: u8, c: u8, d: u8, port: u16) -> SocketAddr {
    SocketAddr::new(IpAddr::V4(u32::from_be_bytes([a, b, c, d])), port)
}

fn local() -> SocketAddr {
    addr(192, 168, 1, 2, 40000)
}

fn info(pub_addr: SocketAddr) -> MappingInfo {
    MappingInfo::new(pub_addr, local())
}

fn io_err() -> io::Error {
    io::Error::new(io::ErrorKind::Other, "boom")
}

/// Runs the events through the session and collects the reported addresses.
fn reports(s: &mut Session, events: Vec<Event>) -> Vec<SocketAddr> {
    let mut out = Vec::new();
    for e in events {
        if let Action::Notify(i) = s.step(e) {
            out.push(i.pub_addr);
        }
    }
    out
}

/// One UDP keepalive tick: the session says what to do, the outcome is fed back.
fn udp_tick(s: &mut Session, probe_result: SocketAddr, probes: &mut usize) -> Option<SocketAddr> {
    match s.step(Event::Tick) {
        Action::Probe => {
            *probes += 1;
            match s.step(Event::ProbeDone(probe_result)) {
                Action::Notify(i) => Some(i.pub_addr),
                _ => None,
            }
        }
        Action::SendKeepalive => {
            assert!(matches!(s.step(Event::SendDone), Action::Run));
            None
        }
        other => panic!("unexpected action {:?}", other),
    }
}

#[test]
fn udp_static_address_reports_once() {
    let public = addr(203, 0, 113, 7, 40001);
    let mut s = Session::new(Protocol::Udp, 3);
    let first = s.step(Event::SetupDone(info(public)));
    assert!(matches!(first, Action::Notify(i) if i.pub_addr == public && i.local_addr == local()));
    let mut probes = 0;
    let mut extra = Vec::new();
    // 30 ms at 5 ms per tick
    for _ in 0..6 {
        if let Some(a) = udp_tick(&mut s, public, &mut probes) {
            extra.push(a);
        }
    }
    assert!(extra.is_empty());
    assert_eq!(probes, 2);
    // the first three ticks hold exactly one probe, on the third
    let mut s = Session::new(Protocol::Udp, 3);
    s.step(Event::SetupDone(info(public)));
    let mut probes = 0;
    udp_tick(&mut s, public, &mut probes);
    udp_tick(&mut s, public, &mut probes);
    assert_eq!(probes, 0);
    udp_tick(&mut s, public, &mut probes);
    assert_eq!(probes, 1);
}

#[test]
fn udp_address_flip_reports_each_change() {
    let a = addr(203, 0, 113, 7, 40001);
    let b = addr(203, 0, 113, 7, 40002);
    let mut s = Session::new(Protocol::Udp, 1);
    let mut seen = Vec::new();
    if let Action::Notify(i) = s.step(Event::SetupDone(info(a))) {
        seen.push(i.pub_addr);
    }
    let mut probes = 0;
    for next in [b, a] {
        if let Some(x) = udp_tick(&mut s, next, &mut probes) {
            seen.push(x);
        }
    }
    assert_eq!(seen, vec![a, b, a]);
}

#[test]
fn tcp_fin_reconnects_without_new_report() {
    let public = addr(198, 51, 100, 9, 8080);
    let mut s = Session::new(Protocol::Tcp, 1);
    let mut setups = 0;
    let mut seen = Vec::new();
    for _ in 0..3 {
        setups += 1;
        if let Action::Notify(i) = s.step(Event::SetupDone(info(public))) {
            seen.push(i.pub_addr);
        }
        assert!(matches!(s.step(Event::Tick), Action::SendKeepalive));
        assert!(matches!(s.step(Event::SendDone), Action::Run));
        assert!(matches!(s.step(Event::StreamClosed), Action::Setup));
        assert_eq!(s.retry_count, 0);
    }
    assert!(setups >= 2);
    assert_eq!(seen, vec![public]);
}

#[test]
fn dns_failures_below_limit_recover() {
    let public = addr(203, 0, 113, 7, 40001);
    let mut s = Session::new(Protocol::Udp, 5);
    for n in 1..5 {
        let a = s.step(Event::SetupFailed(Error::from(DnsError::Resolve(io_err()))));
        assert!(matches!(a, Action::Backoff));
        assert_eq!(s.retry_count, n);
    }
    let a = s.step(Event::SetupDone(info(public)));
    assert!(matches!(a, Action::Notify(i) if i.pub_addr == public));
    assert_eq!(s.retry_count, 0);
    assert_eq!(s.phase, Phase::Running);
}

#[test]
fn dns_failures_at_limit_give_up() {
    let mut s = Session::new(Protocol::Tcp, 1);
    let mut last = None;
    for _ in 0..RETRY_LIMIT {
        last = Some(s.step(Event::SetupFailed(Error::from(DnsError::AddrNotFound))));
    }
    assert!(matches!(last, Some(Action::Fail(Error::AddrNotFound))));
    assert_eq!(s.phase, Phase::Faulted);
}

#[test]
fn socket_error_is_fatal_at_once() {
    let public = addr(203, 0, 113, 7, 40001);
    let mut s = Session::new(Protocol::Udp, 5);
    let a = s.step(Event::SetupFailed(Error::Socket(io::Error::new(
        io::ErrorKind::AddrInUse,
        "in use",
    ))));
    assert!(matches!(a, Action::Fail(Error::Socket(_))));
    assert_eq!(s.phase, Phase::Faulted);
    // nothing is reported afterwards
    let later = reports(&mut s, vec![Event::SetupDone(info(public)), Event::ProbeDone(public)]);
    assert!(later.is_empty());
}

#[test]
fn successive_reports_differ() {
    let a = addr(1, 1, 1, 1, 1);
    let b = addr(2, 2, 2, 2, 2);
    let mut s = Session::new(Protocol::Udp, 1);
    let seen = reports(
        &mut s,
        vec![
            Event::SetupDone(info(a)),
            Event::Tick,
            Event::ProbeDone(a),
            Event::Tick,
            Event::ProbeDone(b),
            Event::Tick,
            Event::ProbeDone(b),
            Event::Tick,
            Event::ProbeDone(a),
        ],
    );
    assert_eq!(seen, vec![a, b, a]);
    for w in seen.windows(2) {
        assert_ne!(w[0], w[1]);
    }
}

#[test]
fn probe_failures_are_tolerated_then_escalate() {
    let public = addr(203, 0, 113, 7, 40001);
    let mut s = Session::new(Protocol::Udp, 1);
    s.step(Event::SetupDone(info(public)));
    for _ in 0..RETRY_LIMIT - 1 {
        assert!(matches!(s.step(Event::Tick), Action::Probe));
        assert!(matches!(s.step(Event::ProbeFailed(StunError::Malformed)), Action::Run));
    }
    assert!(matches!(s.step(Event::Tick), Action::Probe));
    assert!(matches!(
        s.step(Event::ProbeFailed(StunError::Malformed)),
        Action::Backoff
    ));
    assert_eq!(s.phase, Phase::Setup);
    assert_eq!(s.retry_count, 1);
}

#[test]
fn failed_probe_is_retried_on_next_tick() {
    let public = addr(203, 0, 113, 7, 40001);
    let mut s = Session::new(Protocol::Udp, 2);
    s.step(Event::SetupDone(info(public)));
    assert!(matches!(s.step(Event::Tick), Action::SendKeepalive));
    s.step(Event::SendDone);
    assert!(matches!(s.step(Event::Tick), Action::Probe));
    s.step(Event::ProbeFailed(StunError::TransactionIdMismatch));
    assert!(matches!(s.step(Event::Tick), Action::Probe));
}

#[test]
fn keepalive_send_failures_escalate_as_keepalive_error() {
    let public = addr(203, 0, 113, 7, 40001);
    let mut s = Session::new(Protocol::Udp, 5);
    s.step(Event::SetupDone(info(public)));
    for _ in 0..RETRY_LIMIT - 1 {
        assert!(matches!(s.step(Event::Tick), Action::SendKeepalive));
        assert!(matches!(s.step(Event::SendFailed(io_err())), Action::Run));
    }
    assert!(matches!(s.step(Event::Tick), Action::SendKeepalive));
    assert!(matches!(s.step(Event::SendFailed(io_err())), Action::Backoff));
    assert_eq!(s.retry_count, 1);
}

#[test]
fn tcp_stream_error_backs_off() {
    let public = addr(198, 51, 100, 9, 8080);
    let mut s = Session::new(Protocol::Tcp, 1);
    s.step(Event::SetupDone(info(public)));
    assert!(matches!(s.step(Event::StreamFailed(io_err())), Action::Backoff));
    assert_eq!(s.retry_count, 1);
    assert_eq!(s.phase, Phase::Setup);
}

#[test]
fn events_out_of_place_are_ignored() {
    let mut s = Session::new(Protocol::Tcp, 1);
    assert!(matches!(s.step(Event::Tick), Action::Wait));
    assert!(matches!(s.step(Event::StreamClosed), Action::Wait));
    assert_eq!(s.phase, Phase::Setup);
}

#[test]
fn stun_errors_map_to_error_kinds() {
    assert!(matches!(Error::from(StunError::Malformed), Error::StunMalformed));
    assert!(matches!(
        Error::from(StunError::ResponseTooLarge),
        Error::StunResponseTooLarge
    ));
    assert!(matches!(
        Error::from(StunError::TransactionIdMismatch),
        Error::StunTransactionIdMismatch
    ));
    assert!(matches!(Error::from(StunError::Network(io_err())), Error::StunNetwork(_)));
    assert!(matches!(Error::from(DnsError::Resolve(io_err())), Error::DnsResolve(_)));
    assert!(!Error::Socket(io_err()).is_recoverable());
    assert!(Error::Connection(io_err()).is_recoverable());
    assert!(Error::Keepalive(io_err()).is_recoverable());
}

#[test]
fn ticker_does_not_drift() {
    let mut t = Ticker::new(5);
    assert_eq!(t.next_due(), 0);
    assert!(t.poll(0));
    assert_eq!(t.next_due(), 5);
    // a late tick does not push the schedule back
    assert!(t.poll(9));
    assert_eq!(t.next_due(), 10);
    assert!(t.poll(10));
    assert!(!t.poll(12));
    assert_eq!(t.fired, 3);
}

#[test]
fn ticker_never_outpaces_interval() {
    let mut t = Ticker::new(5);
    for now in 0..31u64 {
        t.poll(now);
        assert!(t.fired <= t.latest_ms / t.period_ms + 1);
    }
    assert_eq!(t.fired, 7);
}

#[test]
fn repeated_escalations_end_with_keepalive_error() {
    let public = addr(203, 0, 113, 7, 40001);
    let mut s = Session::new(Protocol::Tcp, 1);
    let mut last = None;
    for _ in 0..RETRY_LIMIT {
        assert!(matches!(s.step(Event::SetupDone(info(public))), Action::Notify(_) | Action::Run));
        assert!(matches!(s.step(Event::Tick), Action::SendKeepalive));
        last = Some(s.step(Event::SendFailed(io_err())));
        assert_eq!(s.retry_count, 1);
    }
    assert!(matches!(last, Some(Action::Backoff)));
    // failures that are not separated by a successful setup add up
    let mut s = Session::new(Protocol::Tcp, 1);
    for _ in 0..RETRY_LIMIT - 1 {
        s.step(Event::SetupFailed(Error::Connection(io_err())));
    }
    assert_eq!(s.retry_count, RETRY_LIMIT - 1);
    s.step(Event::SetupDone(info(public)));
    let a = s.step(Event::StreamFailed(io_err()));
    assert!(matches!(a, Action::Backoff));
    assert_eq!(s.retry_count, 1);
}

#[test]
fn connection_failures_exhaust_retries() {
    let mut s = Session::new(Protocol::Udp, 5);
    let mut last = None;
    for _ in 0..RETRY_LIMIT {
        last = Some(s.step(Event::SetupFailed(Error::Connection(io_err()))));
    }
    assert!(matches!(last, Some(Action::Fail(Error::Connection(_)))));
    assert_eq!(s.retry_count, RETRY_LIMIT);
}

#[test]
fn ticker_with_zero_period_is_always_due() {
    let mut t = Ticker::new(0);
    assert!(t.poll(0));
    assert!(t.poll(0));
    assert_eq!(t.next_due(), 0);
}
