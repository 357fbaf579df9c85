//! Turning command-line arguments into a mapper configuration.
//!
//! Reading a text as a socket or IP address is done by the caller with the
//! platform's address parser; the arguments arrive here with those readings
//! attached, and every other decision is made here.

use vstd::prelude::*;
use vstd::string::{StrSliceExecFns, StringExecFns};

use crate::mapper::{Mapper, MapperBuilder, CHECK_PER_TICK, TCP_INTERVAL_MS, UDP_INTERVAL_MS};
use crate::net::{
    check_iface, remote_view, IpAddr, IpVer, LocalAddr, RemoteAddr, RemoteView, SocketAddr, IFNAMSIZ,
};

verus! {

/// Default STUN server port.
pub const STUN_PORT: u16 = 3478;
/// Default keepalive HTTP server port.
pub const REMOTE_PORT: u16 = 80;

/// Protocol mode of a single mapping task.
#[derive(Clone, Copy, Debug, PartialEq, Eq, Structural)]
pub enum Mode {
    Tcp,
    Udp,
}

/// An address argument: its text, and what the text reads as.
#[derive(Clone, Debug)]
pub struct AddrArg {
    pub text: String,
    /// The text read as a socket address (`ADDR:PORT`, `[ADDR]:PORT`), if it is one.
    pub socket: Option<SocketAddr>,
    /// The text read as an IP address, if it is one.
    pub ip: Option<IpAddr>,
}

/// Arguments of a single mapping task.
#[derive(Debug)]
pub struct RunArgs {
    pub mode: Mode,
    /// STUN server, `ADDR[:PORT]` (default port 3478).
    pub stun: AddrArg,
    /// Local bind, `[ADDR:]PORT`.
    pub bind: AddrArg,
    /// Keepalive interval in seconds.
    pub keepalive: Option<u64>,
    pub ipv4: bool,
    pub ipv6: bool,
    pub iface: Option<String>,
    pub fwmark: Option<u32>,
    pub force_reuse: bool,
    /// Keepalive HTTP server, `ADDR[:PORT]` (TCP only; default port 80).
    pub remote: Option<AddrArg>,
    /// Keepalive ticks per STUN probe (UDP only).
    pub count: Option<usize>,
}

/// A parsed command line.
#[derive(Debug)]
pub enum Command {
    /// Run a single mapping task.
    Run(RunArgs),
    /// Run the tasks of a configuration file.
    Batch { config: String },
}

/// What the command line asks for.
#[derive(Debug)]
pub enum Config {
    /// One mapping task.
    Single(Mapper),
    /// The tasks of the configuration file at this path.
    Multi(String),
}

/// Why a command line was refused.
#[derive(Clone, Copy, Debug, PartialEq, Eq, Structural)]
pub enum CliError {
    /// `-4` and `-6` together.
    VersionConflict,
    /// The bind address is neither `PORT` nor `ADDR:PORT`.
    InvalidBind,
    /// A `HOST:PORT` address whose port is not a number.
    InvalidAddress,
    /// The interface name is longer than the OS limit.
    IfaceTooLong,
    /// A keepalive interval of zero in TCP mode.
    InvalidInterval,
    /// `--count` given in TCP mode.
    CountInTcp,
    /// `--count` of zero.
    InvalidCount,
    /// TCP mode without `--remote`.
    MissingRemote,
    /// `--remote` given in UDP mode.
    RemoteInUdp,
}

pub open spec fn is_digit(c: char) -> bool {
    '0' <= c <= '9'
}

/// Decimal value of a string of digits.
pub open spec fn decimal(s: Seq<char>) -> nat
    decreases s.len(),
{
    if s.len() == 0 {
        0
    } else {
        decimal(s.drop_last()) * 10 + ((s.last() as u32) - 48) as nat
    }
}

/// The text after an optional leading `+`.
pub open spec fn unsigned_digits(s: Seq<char>) -> Seq<char> {
    if s.len() > 0 && s[0] == '+' {
        s.drop_first()
    } else {
        s
    }
}

/// A port number written in decimal, with an optional leading `+`.
pub open spec fn spec_parse_u16(s: Seq<char>) -> Option<u16> {
    let d = unsigned_digits(s);
    if d.len() > 0 && (forall|i: int| 0 <= i < d.len() ==> is_digit(#[trigger] d[i])) && decimal(d)
        <= 0xFFFF {
        Some(decimal(d) as u16)
    } else {
        None
    }
}

/// Index of the last `:` of `s`, if any.
pub open spec fn last_colon(s: Seq<char>) -> Option<int>
    decreases s.len(),
{
    if s.len() == 0 {
        None
    } else if s.last() == ':' {
        Some(s.len() - 1)
    } else {
        last_colon(s.drop_last())
    }
}

/// The IP version that the flags prefer.
pub open spec fn preference(v4: bool, v6: bool) -> Option<IpVer> {
    if v4 {
        Some(IpVer::V4)
    } else if v6 {
        Some(IpVer::V6)
    } else {
        None
    }
}

/// The bind address that a `[ADDR:]PORT` argument gives.
pub open spec fn spec_bind(arg: AddrArg, v6: bool) -> Option<SocketAddr> {
    match spec_parse_u16(arg.text@) {
        Some(p) => Some(SocketAddr { ip: if v6 { IpAddr::V6(0) } else { IpAddr::V4(0) }, port: p }),
        None => arg.socket,
    }
}

/// The endpoint that an `ADDR[:PORT]` argument gives: a socket address as
/// such; `HOST:PORT` split at the last colon; a bare IP address or host
/// with the default port.
pub open spec fn spec_remote(arg: AddrArg, default_port: u16, ver: Option<IpVer>) -> Option<RemoteView> {
    let s = arg.text@;
    if let Some(a) = arg.socket {
        Some(RemoteView::Resolved(a))
    } else if let Some(k) = last_colon(s) {
        match spec_parse_u16(s.subrange(k + 1, s.len() as int)) {
            Some(p) => Some(RemoteView::Host(s.subrange(0, k), p, ver)),
            None => None,
        }
    } else if let Some(ip) = arg.ip {
        Some(RemoteView::Resolved(SocketAddr { ip, port: default_port }))
    } else {
        Some(RemoteView::Host(s, default_port, ver))
    }
}

/// The keepalive interval in milliseconds that `secs` seconds give (the
/// mode's default when none is given): saturated at the largest count of
/// milliseconds; zero means no pause over UDP and is refused over TCP.
pub open spec fn spec_interval(keepalive: Option<u64>, mode: Mode) -> Option<u64> {
    match keepalive {
        None => Some(
            if mode == Mode::Tcp {
                TCP_INTERVAL_MS
            } else {
                UDP_INTERVAL_MS
            },
        ),
        Some(secs) => if secs == 0 && mode == Mode::Tcp {
            None
        } else if secs * 1000 > u64::MAX {
            Some(u64::MAX)
        } else {
            Some((secs * 1000) as u64)
        },
    }
}

/// The first reason, in the order the arguments are checked, to refuse them.
pub open spec fn run_error(a: RunArgs) -> Option<CliError> {
    let ver = preference(a.ipv4, a.ipv6);
    if a.ipv4 && a.ipv6 {
        Some(CliError::VersionConflict)
    } else if spec_bind(a.bind, a.ipv6) is None {
        Some(CliError::InvalidBind)
    } else if a.iface matches Some(n) && vstd::utf8::encode_utf8(n@).len() > IFNAMSIZ {
        Some(CliError::IfaceTooLong)
    } else if spec_remote(a.stun, STUN_PORT, ver) is None {
        Some(CliError::InvalidAddress)
    } else if a.mode == Mode::Tcp && a.count is Some {
        Some(CliError::CountInTcp)
    } else if a.mode == Mode::Tcp && a.remote is None {
        Some(CliError::MissingRemote)
    } else if a.mode == Mode::Tcp && spec_remote(a.remote.unwrap(), REMOTE_PORT, ver) is None {
        Some(CliError::InvalidAddress)
    } else if a.mode == Mode::Udp && a.remote is Some {
        Some(CliError::RemoteInUdp)
    } else if a.mode == Mode::Udp && a.count == Some(0usize) {
        Some(CliError::InvalidCount)
    } else if spec_interval(a.keepalive, a.mode) is None {
        Some(CliError::InvalidInterval)
    } else {
        None
    }
}

/// Whether `l` is the local bind configuration that the arguments give.
pub open spec fn local_matches(l: LocalAddr, a: RunArgs) -> bool {
    &&& l.wf()
    &&& Some(l.local_addr) == spec_bind(a.bind, a.ipv6)
    &&& l.fmark == a.fwmark
    &&& l.iface_name() == match a.iface {
        Some(n) => Some(vstd::utf8::encode_utf8(n@)),
        None => None,
    }
    &&& l.reuse_port == a.force_reuse
}

/// Whether `m` is the mapper that valid arguments `a` describe.
pub open spec fn mapper_matches(m: Mapper, a: RunArgs) -> bool {
    let ver = preference(a.ipv4, a.ipv6);
    match m {
        Mapper::Tcp(t) => {
            &&& a.mode == Mode::Tcp
            &&& local_matches(t.local, a)
            &&& Some(remote_view(t.stun)) == spec_remote(a.stun, STUN_PORT, ver)
            &&& Some(remote_view(t.remote)) == spec_remote(a.remote.unwrap(), REMOTE_PORT, ver)
            &&& Some(t.tick_interval_ms) == spec_interval(a.keepalive, Mode::Tcp)
        },
        Mapper::Udp(u) => {
            &&& a.mode == Mode::Udp
            &&& local_matches(u.local, a)
            &&& Some(remote_view(u.stun)) == spec_remote(a.stun, STUN_PORT, ver)
            &&& Some(u.interval_ms) == spec_interval(a.keepalive, Mode::Udp)
            &&& u.check_per_tick == match a.count {
                Some(c) => c,
                None => CHECK_PER_TICK,
            }
        },
    }
}

/// Reads a port number written in decimal, with an optional leading `+`.
pub fn parse_u16(s: &str) -> (r: Option<u16>)
    ensures
        r == spec_parse_u16(s@),
{
    let n = s.unicode_len();
    let mut i: usize = 0;
    if n > 0 && s.get_char(0) == '+' {
        i = 1;
    }
    let ghost d = unsigned_digits(s@);
    if i == n {
        return None;
    }
    let ghost first = i as int;
    assert(d =~= s@.subrange(first, n as int));
    assert(d.subrange(0, 0) =~= Seq::<char>::empty());
    let mut acc: u32 = 0;
    while i < n
        invariant
            n == s@.len(),
            0 <= first <= i <= n,
            d == unsigned_digits(s@),
            d == s@.subrange(first, n as int),
            d.len() > 0,
            forall|j: int| 0 <= j < i - first ==> is_digit(#[trigger] d[j]),
            acc == decimal(d.subrange(0, i - first)),
            acc <= 0xFFFF,
        decreases n - i,
    {
        let c = s.get_char(i);
        assert(d[i - first] == c);
        if !('0' <= c && c <= '9') {
            assert(!is_digit(d[i - first]));
            assert(!(forall|j: int| 0 <= j < d.len() ==> is_digit(#[trigger] d[j])));
            return None;
        }
        let ghost pre = d.subrange(0, i - first);
        let ghost next = d.subrange(0, i + 1 - first);
        assert(next.drop_last() =~= pre);
        let v = acc * 10 + (c as u32 - 48);
        i = i + 1;
        assert(decimal(next) == v);
        if v > 0xFFFF {
            proof {
                if forall|j: int| 0 <= j < d.len() ==> is_digit(#[trigger] d[j]) {
                    lemma_decimal_grows(d, (i - first) as int);
                }
            }
            return None;
        }
        acc = v;
    }
    assert(d.subrange(0, n - first) =~= d);
    Some(acc as u16)
}

proof fn lemma_decimal_grows(d: Seq<char>, k: int)
    requires
        0 <= k <= d.len(),
        forall|j: int| 0 <= j < d.len() ==> is_digit(#[trigger] d[j]),
    ensures
        decimal(d.subrange(0, k)) <= decimal(d),
    decreases d.len() - k,
{
    if k < d.len() {
        lemma_decimal_grows(d, k + 1);
        let next = d.subrange(0, k + 1);
        assert(next.drop_last() =~= d.subrange(0, k));
    } else {
        assert(d.subrange(0, k) =~= d);
    }
}

/// Finds the last `:` of `s`.
fn find_last_colon(s: &str) -> (r: Option<usize>)
    ensures
        r matches Some(k) ==> last_colon(s@) == Some(k as int) && k < s@.len(),
        r is None ==> last_colon(s@) is None,
{
    let n = s.unicode_len();
    let mut i = n;
    assert(s@.subrange(0, n as int) =~= s@);
    while i > 0
        invariant
            i <= n == s@.len(),
            last_colon(s@) == last_colon(s@.subrange(0, i as int)),
        decreases i,
    {
        let ghost pre = s@.subrange(0, i as int);
        assert(pre.drop_last() =~= s@.subrange(0, i - 1));
        if s.get_char(i - 1) == ':' {
            return Some(i - 1);
        }
        i = i - 1;
    }
    None
}

/// The bind address of a `[ADDR:]PORT` argument: a bare port binds the
/// unspecified address of the preferred version.
pub fn parse_bind(arg: &AddrArg, v6: bool) -> (r: Result<SocketAddr, CliError>)
    ensures
        r matches Ok(a) ==> spec_bind(*arg, v6) == Some(a),
        r is Err <==> spec_bind(*arg, v6) is None,
        r matches Err(e) ==> e == CliError::InvalidBind,
{
    match parse_u16(arg.text.as_str()) {
        Some(port) => Ok(SocketAddr { ip: IpAddr::unspecified(v6), port }),
        None => match arg.socket {
            Some(a) => Ok(a),
            None => Err(CliError::InvalidBind),
        },
    }
}

/// The endpoint of an `ADDR[:PORT]` argument, with `default_port` when none is given.
pub fn parse_with_default_port(arg: &AddrArg, default_port: u16, v4: bool, v6: bool) -> (r: Result<
    RemoteAddr,
    CliError,
>)
    ensures
        r matches Ok(x) ==> spec_remote(*arg, default_port, preference(v4, v6)) == Some(
            remote_view(x),
        ),
        r is Err <==> spec_remote(*arg, default_port, preference(v4, v6)) is None,
        r matches Err(e) ==> e == CliError::InvalidAddress,
{
    let ver = if v4 {
        Some(IpVer::V4)
    } else if v6 {
        Some(IpVer::V6)
    } else {
        None
    };
    if let Some(a) = arg.socket {
        return Ok(RemoteAddr::from_addr(a));
    }
    let text = arg.text.as_str();
    match find_last_colon(text) {
        Some(k) => {
            let n = text.unicode_len();
            match parse_u16(text.substring_char(k + 1, n)) {
                Some(port) => {
                    let host = String::from_str(text.substring_char(0, k));
                    Ok(RemoteAddr::from_host(host, port, ver))
                },
                None => Err(CliError::InvalidAddress),
            }
        },
        None => match arg.ip {
            Some(ip) => Ok(RemoteAddr::from_addr(SocketAddr { ip, port: default_port })),
            None => Ok(RemoteAddr::from_host(String::from_str(text), default_port, ver)),
        },
    }
}

/// The keepalive interval in milliseconds that `secs` seconds give, if valid.
pub fn interval_ms(keepalive: Option<u64>, mode: Mode) -> (r: Option<u64>)
    ensures
        r == spec_interval(keepalive, mode),
{
    match keepalive {
        None => match mode {
            Mode::Tcp => Some(TCP_INTERVAL_MS),
            Mode::Udp => Some(UDP_INTERVAL_MS),
        },
        Some(secs) => if secs == 0 && matches!(mode, Mode::Tcp) {
            None
        } else if secs > u64::MAX / 1000 {
            Some(u64::MAX)
        } else {
            Some(secs * 1000)
        },
    }
}

impl Config {
    /// Decides what a parsed command line asks for: a batch file, or one
    /// mapper built from the run arguments, checked in a fixed order.
    pub fn parse(cmd: Command) -> (r: Result<Config, CliError>)
        ensures
            cmd matches Command::Batch { config } ==> r matches Ok(Config::Multi(p)) && p == config,
            cmd matches Command::Run(a) ==> (match r {
                Ok(Config::Single(m)) => run_error(a) is None && mapper_matches(m, a),
                Ok(Config::Multi(_)) => false,
                Err(e) => run_error(a) == Some(e),
            }),
    {
        match cmd {
            Command::Batch { config } => Ok(Config::Multi(config)),
            Command::Run(a) => match Self::from_run(a) {
                Ok(m) => Ok(Config::Single(m)),
                Err(e) => Err(e),
            },
        }
    }

    fn from_run(a: RunArgs) -> (r: Result<Mapper, CliError>)
        ensures
            r matches Ok(m) ==> run_error(a) is None && mapper_matches(m, a),
            r matches Err(e) ==> run_error(a) == Some(e),
    {
        if a.ipv4 && a.ipv6 {
            return Err(CliError::VersionConflict);
        }
        let bind = match parse_bind(&a.bind, a.ipv6) {
            Ok(b) => b,
            Err(e) => return Err(e),
        };
        let mut local = LocalAddr::new(bind);
        if let Some(fmark) = a.fwmark {
            local = local.with_fmark(fmark);
        }
        if let Some(name) = &a.iface {
            if check_iface(name.as_str()).is_err() {
                return Err(CliError::IfaceTooLong);
            }
            local = local.with_iface(name.as_str().as_bytes());
        }
        if a.force_reuse {
            local = local.force_reuse_port();
        }
        let stun = match parse_with_default_port(&a.stun, STUN_PORT, a.ipv4, a.ipv6) {
            Ok(s) => s,
            Err(e) => return Err(e),
        };
        match a.mode {
            Mode::Tcp => {
                if a.count.is_some() {
                    return Err(CliError::CountInTcp);
                }
                let remote_arg = match &a.remote {
                    Some(r) => r,
                    None => return Err(CliError::MissingRemote),
                };
                let remote = match parse_with_default_port(remote_arg, REMOTE_PORT, a.ipv4, a.ipv6) {
                    Ok(r) => r,
                    Err(e) => return Err(e),
                };
                let ms = match interval_ms(a.keepalive, Mode::Tcp) {
                    Some(ms) => ms,
                    None => return Err(CliError::InvalidInterval),
                };
                let m = MapperBuilder::new_tcp(local, stun, remote).interval(ms).build();
                Ok(Mapper::Tcp(m))
            },
            Mode::Udp => {
                if a.remote.is_some() {
                    return Err(CliError::RemoteInUdp);
                }
                let count = match a.count {
                    Some(c) => {
                        if c == 0 {
                            return Err(CliError::InvalidCount);
                        }
                        c
                    },
                    None => CHECK_PER_TICK,
                };
                let ms = match interval_ms(a.keepalive, Mode::Udp) {
                    Some(ms) => ms,
                    None => return Err(CliError::InvalidInterval),
                };
                let m = MapperBuilder::new_udp(local, stun).check_per_tick(count).interval(
                    ms,
                ).build();
                Ok(Mapper::Udp(m))
            },
        }
    }
}

} // verus!
