use nyat::cli::{parse_bind, parse_u16, parse_with_default_port, AddrArg, CliError, Command, Config, Mode, RunArgs};
use nyat::error::DnsError;
use nyat::mapper::{keepalive_request, Mapper, MapperBuilder, CHECK_PER_TICK, TCP_INTERVAL_MS, UDP_INTERVAL_MS};
use nyat::net::{check_iface, select_addr, IpAddr, IpVer, LocalAddr, RemoteAddr, RemoteAddrKind, SocketAddr};

fn v4(a: u8, b: u8, c: u8, d: u8, port: u16) -> SocketAddr {
    SocketAddr::new(IpAddr::V4(u32::from_be_bytes([a, b, c, d])), port)
}

fn arg(text: &str, socket: Option<SocketAddr>, ip: Option<IpAddr>) -> AddrArg {
    AddrArg { text: text.to_string(), socket, ip }
}

fn run_args(mode: Mode) -> RunArgs {
    RunArgs {
        mode,
        stun: arg("stun.example.com", None, None),
        bind: arg("4070", None, None),
        keepalive: None,
        ipv4: false,
        ipv6: false,
        iface: None,
        fwmark: None,
        force_reuse: false,
        remote: None,
        count: None,
    }
}

fn request_text(remote: RemoteAddr) -> String {
    String::from_utf8(keepalive_request(&remote)).unwrap()
}

#[test]
fn iface_of_16_bytes_accepted_17_rejected() {
    assert!(check_iface("abcdefghijklmnop").is_ok());
    let e = check_iface("abcdefghijklmnopq").err().unwrap();
    assert_eq!(e.len, 17);
    assert!(check_iface("eth0").is_ok());
}

#[test]
fn local_builder_sets_options() {
    let l = LocalAddr::new(v4(0, 0, 0, 0, 4070))
        .with_fmark(7)
        .with_iface(b"eth0")
        .force_reuse_port();
    assert_eq!(l.local_addr, v4(0, 0, 0, 0, 4070));
    assert_eq!(l.fmark, Some(7));
    assert_eq!(l.iface, Some(b"eth0".to_vec()));
    assert!(l.reuse_port);
}

#[test]
fn ephemeral_port_is_resolved_for_second_socket() {
    let l = LocalAddr::new(v4(0, 0, 0, 0, 0)).with_iface(b"wg0");
    let bound = v4(0, 0, 0, 0, 51234);
    let second = l.rebound(bound);
    assert_eq!(second.local_addr.port, 51234);
    assert_eq!(second.iface, Some(b"wg0".to_vec()));
    assert_eq!(l.local_addr.port, 0);
}

#[test]
fn lookup_picks_first_of_preferred_version() {
    let a6 = SocketAddr::new(IpAddr::V6(1), 3478);
    let a4 = v4(1, 2, 3, 4, 3478);
    let b4 = v4(5, 6, 7, 8, 3478);
    let addrs = vec![a6, a4, b4];
    assert_eq!(select_addr(&addrs, None).ok(), Some(a6));
    assert_eq!(select_addr(&addrs, Some(IpVer::V4)).ok(), Some(a4));
    assert_eq!(select_addr(&addrs, Some(IpVer::V6)).ok(), Some(a6));
    assert!(matches!(
        select_addr(&[a4], Some(IpVer::V6)),
        Err(DnsError::AddrNotFound)
    ));
    assert!(matches!(select_addr(&[], None), Err(DnsError::AddrNotFound)));
}

#[test]
fn keepalive_request_names_domain() {
    let r = RemoteAddr::from_host("example.com".to_string(), 80, None);
    assert_eq!(
        request_text(r),
        "HEAD / HTTP/1.1\r\nHost: example.com\r\nConnection: keep-alive\r\n\r\n"
    );
}

#[test]
fn keepalive_request_names_ip() {
    let r = RemoteAddr::from_addr(v4(93, 184, 216, 34, 80));
    assert_eq!(
        request_text(r),
        "HEAD / HTTP/1.1\r\nHost: 93.184.216.34\r\nConnection: keep-alive\r\n\r\n"
    );
}

#[test]
fn ipv6_text_forms() {
    let host = |x: u128| {
        let t = request_text(RemoteAddr::from(SocketAddr::new(IpAddr::V6(x), 80)));
        t["HEAD / HTTP/1.1\r\nHost: ".len()..t.len() - "\r\nConnection: keep-alive\r\n\r\n".len()].to_string()
    };
    assert_eq!(host(1), "::1");
    assert_eq!(host(0), "::");
    assert_eq!(host(0x2001_0db8_0000_0000_0000_0000_0000_0001), "2001:db8::1");
    assert_eq!(host(0x0000_0000_0000_0000_0000_ffff_0102_0304), "::ffff:1.2.3.4");
    assert_eq!(host(0x0001_0000_0000_0001_0000_0000_0000_0001), "1:0:0:1::1");
    assert_eq!(host(0x0001_0000_0000_0002_0000_0000_0003_0004), "1::2:0:0:3:4");
    assert_eq!(host(0x0001_0002_0003_0004_0005_0006_0007_0008), "1:2:3:4:5:6:7:8");
    assert_eq!(host(0xfe80_0000_0000_0000_abcd_0000_0000_0000), "fe80::abcd:0:0:0");
}

#[test]
fn udp_builder_defaults_and_options() {
    let stun = RemoteAddr::from_host("stun.example.com".to_string(), 3478, None);
    let b = MapperBuilder::new_udp(LocalAddr::new(v4(0, 0, 0, 0, 0)), stun);
    assert_eq!(b.interval_ms, UDP_INTERVAL_MS);
    assert_eq!(b.config.check_per_tick, CHECK_PER_TICK);
    let m = b.check_per_tick(3).interval(5).build();
    assert_eq!(m.check_per_tick, 3);
    assert_eq!(m.interval_ms, 5);
}

#[test]
fn tcp_builder_prepares_request() {
    let stun = RemoteAddr::from_host("stun.example.com".to_string(), 3478, None);
    let ka = RemoteAddr::from_host("example.com".to_string(), 80, None);
    let b = MapperBuilder::new_tcp(LocalAddr::new(v4(0, 0, 0, 0, 8080)), stun, ka);
    assert_eq!(b.interval_ms, TCP_INTERVAL_MS);
    let m = b.interval(10_000).build();
    assert_eq!(m.tick_interval_ms, 10_000);
    assert_eq!(
        String::from_utf8(m.request.clone()).unwrap(),
        "HEAD / HTTP/1.1\r\nHost: example.com\r\nConnection: keep-alive\r\n\r\n"
    );
    assert!(matches!(Mapper::from(m), Mapper::Tcp(_)));
}

#[test]
fn port_text_parsing() {
    assert_eq!(parse_u16("80"), Some(80));
    assert_eq!(parse_u16("+80"), Some(80));
    assert_eq!(parse_u16("0080"), Some(80));
    assert_eq!(parse_u16("65535"), Some(65535));
    assert_eq!(parse_u16("65536"), None);
    assert_eq!(parse_u16(""), None);
    assert_eq!(parse_u16("+"), None);
    assert_eq!(parse_u16("8o"), None);
    assert_eq!(parse_u16("-1"), None);
}

#[test]
fn bind_argument_forms() {
    assert_eq!(parse_bind(&arg("4070", None, None), false).ok(), Some(v4(0, 0, 0, 0, 4070)));
    assert_eq!(
        parse_bind(&arg("4070", None, None), true).ok(),
        Some(SocketAddr::new(IpAddr::V6(0), 4070))
    );
    let s = v4(10, 0, 0, 1, 53);
    assert_eq!(parse_bind(&arg("10.0.0.1:53", Some(s), None), false).ok(), Some(s));
    assert_eq!(parse_bind(&arg("nope", None, None), false).err(), Some(CliError::InvalidBind));
}

#[test]
fn remote_argument_forms() {
    let s = v4(1, 2, 3, 4, 3479);
    let r = parse_with_default_port(&arg("1.2.3.4:3479", Some(s), None), 3478, false, false).ok().unwrap();
    assert!(matches!(r.kind, RemoteAddrKind::Resolved(a) if a == s));

    let r = parse_with_default_port(&arg("stun.l.google.com:19302", None, None), 3478, true, false)
        .ok()
        .unwrap();
    match r.kind {
        RemoteAddrKind::Host { domain, port, ver_preference } => {
            assert_eq!(domain, "stun.l.google.com");
            assert_eq!(port, 19302);
            assert_eq!(ver_preference, Some(IpVer::V4));
        }
        _ => panic!("expected a host"),
    }

    let ip = IpAddr::V4(u32::from_be_bytes([1, 2, 3, 4]));
    let r = parse_with_default_port(&arg("1.2.3.4", None, Some(ip)), 3478, false, false).ok().unwrap();
    assert!(matches!(r.kind, RemoteAddrKind::Resolved(a) if a == SocketAddr::new(ip, 3478)));

    let r = parse_with_default_port(&arg("example.com", None, None), 80, false, true).ok().unwrap();
    match r.kind {
        RemoteAddrKind::Host { domain, port, ver_preference } => {
            assert_eq!(domain, "example.com");
            assert_eq!(port, 80);
            assert_eq!(ver_preference, Some(IpVer::V6));
        }
        _ => panic!("expected a host"),
    }

    assert_eq!(
        parse_with_default_port(&arg("example.com:http", None, None), 80, false, false).err(),
        Some(CliError::InvalidAddress)
    );
}

#[test]
fn config_batch_and_errors() {
    match Config::parse(Command::Batch { config: "tasks.toml".to_string() }) {
        Ok(Config::Multi(p)) => assert_eq!(p, "tasks.toml"),
        _ => panic!("expected a batch config"),
    }
    let mut a = run_args(Mode::Tcp);
    a.count = Some(3);
    a.remote = Some(arg("example.com", None, None));
    assert_eq!(Config::parse(Command::Run(a)).err(), Some(CliError::CountInTcp));

    let a = run_args(Mode::Tcp);
    assert_eq!(Config::parse(Command::Run(a)).err(), Some(CliError::MissingRemote));

    let mut a = run_args(Mode::Udp);
    a.remote = Some(arg("example.com", None, None));
    assert_eq!(Config::parse(Command::Run(a)).err(), Some(CliError::RemoteInUdp));

    let mut a = run_args(Mode::Udp);
    a.ipv4 = true;
    a.ipv6 = true;
    assert_eq!(Config::parse(Command::Run(a)).err(), Some(CliError::VersionConflict));

    let mut a = run_args(Mode::Udp);
    a.iface = Some("abcdefghijklmnopq".to_string());
    assert_eq!(Config::parse(Command::Run(a)).err(), Some(CliError::IfaceTooLong));

    let mut a = run_args(Mode::Tcp);
    a.remote = Some(arg("example.com", None, None));
    a.keepalive = Some(0);
    assert_eq!(Config::parse(Command::Run(a)).err(), Some(CliError::InvalidInterval));

    let mut a = run_args(Mode::Udp);
    a.count = Some(0);
    assert_eq!(Config::parse(Command::Run(a)).err(), Some(CliError::InvalidCount));

    let mut a = run_args(Mode::Udp);
    a.bind = arg("x", None, None);
    assert_eq!(Config::parse(Command::Run(a)).err(), Some(CliError::InvalidBind));
}

#[test]
fn config_builds_udp_mapper() {
    let mut a = run_args(Mode::Udp);
    a.count = Some(3);
    a.keepalive = Some(2);
    a.iface = Some("eth0".to_string());
    a.fwmark = Some(9);
    match Config::parse(Command::Run(a)) {
        Ok(Config::Single(Mapper::Udp(m))) => {
            assert_eq!(m.check_per_tick, 3);
            assert_eq!(m.interval_ms, 2000);
            assert_eq!(m.local.local_addr, v4(0, 0, 0, 0, 4070));
            assert_eq!(m.local.iface, Some(b"eth0".to_vec()));
            assert_eq!(m.local.fmark, Some(9));
            assert!(!m.local.reuse_port);
            match m.stun.kind {
                RemoteAddrKind::Host { domain, port, ver_preference } => {
                    assert_eq!(domain, "stun.example.com");
                    assert_eq!(port, 3478);
                    assert_eq!(ver_preference, None);
                }
                _ => panic!("expected a host"),
            }
        }
        _ => panic!("expected a UDP mapper"),
    }
}

#[test]
fn config_builds_tcp_mapper() {
    let mut a = run_args(Mode::Tcp);
    a.remote = Some(arg("example.com", None, None));
    a.force_reuse = true;
    match Config::parse(Command::Run(a)) {
        Ok(Config::Single(Mapper::Tcp(m))) => {
            assert_eq!(m.tick_interval_ms, TCP_INTERVAL_MS);
            assert!(m.local.reuse_port);
            match &m.remote.kind {
                RemoteAddrKind::Host { domain, port, .. } => {
                    assert_eq!(domain, "example.com");
                    assert_eq!(*port, 80);
                }
                _ => panic!("expected a host"),
            }
            assert_eq!(
                String::from_utf8(m.request.clone()).unwrap(),
                "HEAD / HTTP/1.1\r\nHost: example.com\r\nConnection: keep-alive\r\n\r\n"
            );
        }
        _ => panic!("expected a TCP mapper"),
    }
}

#[test]
fn udp_keepalive_of_zero_and_huge_values() {
    let mut a = run_args(Mode::Udp);
    a.bind = arg("0", None, None);
    a.keepalive = Some(0);
    match Config::parse(Command::Run(a)) {
        Ok(Config::Single(Mapper::Udp(m))) => {
            assert_eq!(m.interval_ms, 0);
            assert_eq!(m.check_per_tick, 5);
            assert_eq!(m.local.local_addr, v4(0, 0, 0, 0, 0));
        }
        _ => panic!("expected a UDP mapper"),
    }
    let mut a = run_args(Mode::Udp);
    a.keepalive = Some(u64::MAX);
    match Config::parse(Command::Run(a)) {
        Ok(Config::Single(Mapper::Udp(m))) => assert_eq!(m.interval_ms, u64::MAX),
        _ => panic!("expected a UDP mapper"),
    }
    let mut a = run_args(Mode::Tcp);
    a.remote = Some(arg("example.com", None, None));
    a.keepalive = Some(u64::MAX / 1000 + 1);
    match Config::parse(Command::Run(a)) {
        Ok(Config::Single(Mapper::Tcp(m))) => assert_eq!(m.tick_interval_ms, u64::MAX),
        _ => panic!("expected a TCP mapper"),
    }
}
