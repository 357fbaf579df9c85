use nyat::batch::{
    BatchError, BatchFile, Defaults, LoadError, MultiConfig, Role, RunMode, Server, ServerPair,
    TaskEntry,
};
use nyat::cli::{AddrArg, Mode};
use nyat::mapper::Mapper;
use nyat::net::{IpAddr, IpVer, RemoteAddrKind, SocketAddr};

fn pair(host: Option<&str>, port: Option<u16>) -> ServerPair {
    ServerPair { host: host.map(|h| h.to_string()), port, socket: None }
}

fn no_defaults() -> Defaults {
    Defaults {
        stun: pair(None, None),
        remote: pair(None, None),
        keepalive: None,
        ipv6: None,
        iface: None,
        fwmark: None,
        force_reuse: None,
    }
}

fn entry(mode: Mode) -> TaskEntry {
    TaskEntry {
        mode,
        bind: AddrArg { text: "4070".to_string(), socket: None, ip: None },
        stun: pair(None, None),
        remote: pair(None, None),
        keepalive: None,
        count: None,
        ipv6: None,
        iface: None,
        fwmark: None,
        force_reuse: None,
        exec_command: None,
    }
}

#[test]
fn server_pair_needs_both_parts() {
    assert!(matches!(Server::try_from_pair(pair(Some("h"), Some(1)), Role::Stun), Ok(Some(_))));
    assert!(matches!(Server::try_from_pair(pair(None, None), Role::Stun), Ok(None)));
    assert_eq!(
        Server::try_from_pair(pair(Some("h"), None), Role::Remote).err(),
        Some(BatchError::PartialServer(Role::Remote))
    );
    assert_eq!(
        Server::try_from_pair(pair(None, Some(80)), Role::Stun).err(),
        Some(BatchError::PartialServer(Role::Stun))
    );
}

#[test]
fn server_resolved_when_host_is_an_address() {
    let a = SocketAddr::new(IpAddr::V4(u32::from_be_bytes([1, 2, 3, 4])), 3478);
    let s = Server { host: "1.2.3.4".to_string(), port: 3478, socket: Some(a) };
    assert!(matches!(s.into_remote_addr(Some(IpVer::V4)).kind, RemoteAddrKind::Resolved(x) if x == a));
    let s = Server { host: "stun.example.com".to_string(), port: 3478, socket: None };
    match s.into_remote_addr(Some(IpVer::V6)).kind {
        RemoteAddrKind::Host { domain, port, ver_preference } => {
            assert_eq!(domain, "stun.example.com");
            assert_eq!(port, 3478);
            assert_eq!(ver_preference, Some(IpVer::V6));
        }
        _ => panic!("expected a host"),
    }
}

#[test]
fn defaults_are_checked() {
    let mut d = no_defaults();
    d.stun = pair(Some("stun.example.com"), None);
    assert_eq!(d.into_parsed().err(), Some(BatchError::PartialServer(Role::Stun)));
    let mut d = no_defaults();
    d.iface = Some("abcdefghijklmnopq".to_string());
    assert_eq!(d.into_parsed().err(), Some(BatchError::IfaceTooLong));
}

#[test]
fn task_takes_defaults_and_own_settings() {
    let mut d = no_defaults();
    d.stun = pair(Some("stun.example.com"), Some(3478));
    d.keepalive = Some(7);
    d.fwmark = Some(3);
    d.iface = Some("eth0".to_string());
    let d = d.into_parsed().ok().unwrap();
    let mut e = entry(Mode::Udp);
    e.count = Some(2);
    e.force_reuse = Some(true);
    let c = e.into_config(&d).ok().unwrap();
    assert_eq!(c.interval_ms, 7000);
    assert_eq!(c.fwmark, Some(3));
    assert_eq!(c.iface.as_deref(), Some("eth0"));
    assert!(c.force_reuse);
    assert_eq!(c.bind, SocketAddr::new(IpAddr::V4(0), 4070));
    assert!(matches!(c.mode, RunMode::Udp { count: 2 }));
    match &c.stun.kind {
        RemoteAddrKind::Host { domain, port, ver_preference } => {
            assert_eq!(domain, "stun.example.com");
            assert_eq!(*port, 3478);
            assert_eq!(*ver_preference, Some(IpVer::V4));
        }
        _ => panic!("expected a host"),
    }
    match c.into_mapper() {
        Mapper::Udp(m) => {
            assert_eq!(m.check_per_tick, 2);
            assert_eq!(m.interval_ms, 7000);
            assert!(m.local.reuse_port);
        }
        _ => panic!("expected a UDP mapper"),
    }
}

#[test]
fn task_errors() {
    let d = no_defaults().into_parsed().ok().unwrap();
    assert_eq!(entry(Mode::Udp).into_config(&d).err(), Some(BatchError::MissingStun));

    let mut e = entry(Mode::Tcp);
    e.stun = pair(Some("s"), Some(1));
    assert_eq!(e.into_config(&d).err(), Some(BatchError::MissingRemote));

    let mut e = entry(Mode::Udp);
    e.stun = pair(Some("s"), Some(1));
    e.remote = pair(Some("r"), None);
    assert_eq!(e.into_config(&d).err(), Some(BatchError::RemoteInUdp));

    let mut e = entry(Mode::Udp);
    e.stun = pair(Some("s"), Some(1));
    e.bind = AddrArg { text: "bad".to_string(), socket: None, ip: None };
    assert_eq!(e.into_config(&d).err(), Some(BatchError::InvalidBind));

    let mut e = entry(Mode::Udp);
    e.stun = pair(Some("s"), Some(1));
    e.count = Some(0);
    assert_eq!(e.into_config(&d).err(), Some(BatchError::InvalidCount));
}

#[test]
fn load_reports_empty_file_and_failing_task() {
    let file = BatchFile { log_level: None, default: no_defaults(), task: Vec::new() };
    assert!(matches!(MultiConfig::load(file), Err(LoadError::NoTasks)));

    let mut good = entry(Mode::Udp);
    good.stun = pair(Some("s"), Some(1));
    let file = BatchFile {
        log_level: Some("info".to_string()),
        default: no_defaults(),
        task: vec![("a".to_string(), good), ("b".to_string(), entry(Mode::Udp))],
    };
    match MultiConfig::load(file) {
        Err(LoadError::Task(name, e)) => {
            assert_eq!(name, "b");
            assert_eq!(e, BatchError::MissingStun);
        }
        _ => panic!("expected task b to fail"),
    }

    let mut tcp = entry(Mode::Tcp);
    tcp.stun = pair(Some("s"), Some(1));
    tcp.remote = pair(Some("example.com"), Some(80));
    let file = BatchFile { log_level: None, default: no_defaults(), task: vec![("t".to_string(), tcp)] };
    let m = MultiConfig::load(file).ok().unwrap();
    assert_eq!(m.tasks.len(), 1);
    assert_eq!(m.tasks[0].0, "t");
    assert!(matches!(m.tasks[0].1.mode, RunMode::Tcp { .. }));
}

#[test]
fn zero_keepalive_and_bad_defaults_are_refused() {
    let d = no_defaults().into_parsed().ok().unwrap();
    let mut e = entry(Mode::Tcp);
    e.stun = pair(Some("s"), Some(1));
    e.remote = pair(Some("r"), Some(80));
    e.keepalive = Some(0);
    assert_eq!(e.into_config(&d).err(), Some(BatchError::InvalidInterval));

    let mut bad = no_defaults();
    bad.remote = pair(None, Some(80));
    let mut good = entry(Mode::Udp);
    good.stun = pair(Some("s"), Some(1));
    let file = BatchFile { log_level: None, default: bad, task: vec![("a".to_string(), good)] };
    assert!(matches!(
        MultiConfig::load(file),
        Err(LoadError::Defaults(BatchError::PartialServer(Role::Remote)))
    ));
}

#[test]
fn udp_task_accepts_zero_keepalive() {
    let d = no_defaults().into_parsed().ok().unwrap();
    let mut e = entry(Mode::Udp);
    e.stun = pair(Some("s"), Some(1));
    e.keepalive = Some(0);
    let c = e.into_config(&d).ok().unwrap();
    assert_eq!(c.interval_ms, 0);
}
