//! NAT mapping sessions: what a session reports, and how one is configured.

use vstd::prelude::*;

use vstd::string::StringSliceAdditionalSpecFns;

use crate::net::{LocalAddr, RemoteAddr, RemoteAddrKind, SocketAddr};
use crate::text::{ip_text, push_ip_text};

verus! {

/// An observed public/local address pair: the exterior address that STUN
/// reported, and the local address that was actually bound.
#[derive(Clone, Copy, Debug, PartialEq, Eq, Structural)]
pub struct MappingInfo {
    pub pub_addr: SocketAddr,
    pub local_addr: SocketAddr,
}

impl MappingInfo {
    pub fn new(pub_addr: SocketAddr, local_addr: SocketAddr) -> (r: MappingInfo)
        ensures
            r.pub_addr == pub_addr,
            r.local_addr == local_addr,
    {
        MappingInfo { pub_addr, local_addr }
    }
}

/// Default keepalive interval over TCP, in milliseconds.
pub const TCP_INTERVAL_MS: u64 = 30_000;
/// Default keepalive interval over UDP, in milliseconds.
pub const UDP_INTERVAL_MS: u64 = 5_000;
/// Default number of keepalive ticks per STUN probe over UDP.
pub const CHECK_PER_TICK: usize = 5;

/// Start of the keepalive request, up to the host.
pub const REQUEST_HEAD: &'static str = "HEAD / HTTP/1.1\r\nHost: ";
/// End of the keepalive request, after the host.
pub const REQUEST_TAIL: &'static str = "\r\nConnection: keep-alive\r\n\r\n";

/// UDP-specific builder settings.
#[derive(Clone, Copy, Debug)]
pub struct UdpConfig {
    /// One STUN probe per this many keepalive ticks (never zero).
    pub check_per_tick: usize,
}

/// TCP-specific builder settings.
#[derive(Debug)]
pub struct TcpConfig {
    /// The HTTP server that carries the keepalive stream.
    pub ka_remote: RemoteAddr,
}

/// Builder of [`TcpMapper`] and [`UdpMapper`].
///
/// Use [`new_tcp`](Self::new_tcp) or [`new_udp`](Self::new_udp), set
/// options, then call `build`.
#[derive(Debug)]
pub struct MapperBuilder<S> {
    pub local: LocalAddr,
    pub stun: RemoteAddr,
    /// Keepalive interval, in milliseconds.
    pub interval_ms: u64,
    pub config: S,
}

impl MapperBuilder<UdpConfig> {
    /// A UDP mapper builder; interval 5 s and one probe per 5 ticks by default.
    pub fn new_udp(local: LocalAddr, stun_addr: RemoteAddr) -> (r: Self)
        ensures
            r.local == local,
            r.stun == stun_addr,
            r.interval_ms == UDP_INTERVAL_MS,
            r.config.check_per_tick == CHECK_PER_TICK,
    {
        MapperBuilder {
            local,
            stun: stun_addr,
            interval_ms: UDP_INTERVAL_MS,
            config: UdpConfig { check_per_tick: CHECK_PER_TICK },
        }
    }

    /// Sets how many keepalive ticks make one STUN probe.
    pub fn check_per_tick(self, check_per_tick: usize) -> (r: Self)
        requires
            check_per_tick >= 1,
        ensures
            r.local == self.local,
            r.stun == self.stun,
            r.interval_ms == self.interval_ms,
            r.config.check_per_tick == check_per_tick,
    {
        MapperBuilder { config: UdpConfig { check_per_tick }, ..self }
    }

    /// Builds the [`UdpMapper`].
    pub fn build(self) -> (r: UdpMapper)
        ensures
            r.local == self.local,
            r.stun == self.stun,
            r.interval_ms == self.interval_ms,
            r.check_per_tick == self.config.check_per_tick,
    {
        UdpMapper {
            stun: self.stun,
            local: self.local,
            interval_ms: self.interval_ms,
            check_per_tick: self.config.check_per_tick,
        }
    }
}

impl MapperBuilder<TcpConfig> {
    /// A TCP mapper builder; `ka_remote` is the HTTP server used for the
    /// keepalive stream (typically port 80). Interval 30 s by default.
    pub fn new_tcp(local: LocalAddr, stun_addr: RemoteAddr, ka_remote: RemoteAddr) -> (r: Self)
        ensures
            r.local == local,
            r.stun == stun_addr,
            r.interval_ms == TCP_INTERVAL_MS,
            r.config.ka_remote == ka_remote,
    {
        MapperBuilder {
            local,
            stun: stun_addr,
            interval_ms: TCP_INTERVAL_MS,
            config: TcpConfig { ka_remote },
        }
    }

    /// Builds the [`TcpMapper`].
    pub fn build(self) -> (r: TcpMapper)
        ensures
            r.local == self.local,
            r.stun == self.stun,
            r.tick_interval_ms == self.interval_ms,
            r.remote == self.config.ka_remote,
            r.request@ == keepalive_bytes(self.config.ka_remote),
    {
        TcpMapper::new(self)
    }
}

impl<S> MapperBuilder<S> {
    /// Sets the keepalive / probe interval, in milliseconds (0: no pause).
    pub fn interval(self, interval_ms: u64) -> (r: Self)
        ensures
            r.local == self.local,
            r.stun == self.stun,
            r.interval_ms == interval_ms,
            r.config == self.config,
    {
        MapperBuilder { interval_ms, ..self }
    }
}

/// The host that the keepalive request names: the domain when one is
/// known, else the text of the IP address.
pub open spec fn host_bytes(remote: RemoteAddr) -> Seq<u8> {
    match remote.kind {
        RemoteAddrKind::Host { domain, .. } => vstd::utf8::encode_utf8(domain@),
        RemoteAddrKind::Resolved(addr) => ip_text(addr.ip),
    }
}

/// The HTTP HEAD request sent on each keepalive tick to `remote`.
pub open spec fn keepalive_bytes(remote: RemoteAddr) -> Seq<u8> {
    REQUEST_HEAD.spec_bytes() + host_bytes(remote) + REQUEST_TAIL.spec_bytes()
}

fn push_bytes(out: &mut Vec<u8>, b: &[u8])
    ensures
        final(out)@ == old(out)@ + b@,
{
    let mut i: usize = 0;
    while i < b.len()
        invariant
            i <= b@.len(),
            out@ == old(out)@ + b@.subrange(0, i as int),
        decreases b@.len() - i,
    {
        out.push(b[i]);
        i = i + 1;
        assert(out@ =~= old(out)@ + b@.subrange(0, i as int));
    }
    assert(b@.subrange(0, b@.len() as int) =~= b@);
}

/// Builds the keepalive request for `remote`.
pub fn keepalive_request(remote: &RemoteAddr) -> (r: Vec<u8>)
    ensures
        r@ == keepalive_bytes(*remote),
{
    let mut out: Vec<u8> = Vec::new();
    push_bytes(&mut out, REQUEST_HEAD.as_bytes());
    match &remote.kind {
        RemoteAddrKind::Host { domain, .. } => push_bytes(&mut out, domain.as_str().as_bytes()),
        RemoteAddrKind::Resolved(addr) => push_ip_text(&mut out, addr.ip),
    }
    push_bytes(&mut out, REQUEST_TAIL.as_bytes());
    assert(out@ =~= keepalive_bytes(*remote));
    out
}

/// Keeps a TCP connection alive and discovers the public address via STUN.
#[derive(Debug)]
pub struct TcpMapper {
    pub remote: RemoteAddr,
    pub stun: RemoteAddr,
    pub local: LocalAddr,
    /// Keepalive interval, in milliseconds.
    pub tick_interval_ms: u64,
    /// The request written on each keepalive tick.
    pub request: Vec<u8>,
}

impl TcpMapper {
    pub fn new(builder: MapperBuilder<TcpConfig>) -> (r: TcpMapper)
        ensures
            r.local == builder.local,
            r.stun == builder.stun,
            r.tick_interval_ms == builder.interval_ms,
            r.remote == builder.config.ka_remote,
            r.request@ == keepalive_bytes(builder.config.ka_remote),
    {
        let request = keepalive_request(&builder.config.ka_remote);
        TcpMapper {
            remote: builder.config.ka_remote,
            stun: builder.stun,
            local: builder.local,
            tick_interval_ms: builder.interval_ms,
            request,
        }
    }
}

/// Sends UDP keepalives and periodically discovers the public address via STUN.
#[derive(Debug)]
pub struct UdpMapper {
    pub stun: RemoteAddr,
    pub local: LocalAddr,
    /// Keepalive interval, in milliseconds.
    pub interval_ms: u64,
    /// One STUN probe per this many keepalive ticks.
    pub check_per_tick: usize,
}

/// A mapper of either protocol, for heterogeneous collections.
#[derive(Debug)]
pub enum Mapper {
    Tcp(TcpMapper),
    Udp(UdpMapper),
}

impl From<TcpMapper> for Mapper {
    fn from(m: TcpMapper) -> (r: Mapper)
        ensures
            r == Mapper::Tcp(m),
    {
        Mapper::Tcp(m)
    }
}

impl vstd::std_specs::convert::FromSpecImpl<TcpMapper> for Mapper {
    open spec fn obeys_from_spec() -> bool {
        true
    }

    open spec fn from_spec(m: TcpMapper) -> Mapper {
        Mapper::Tcp(m)
    }
}

impl From<UdpMapper> for Mapper {
    fn from(m: UdpMapper) -> (r: Mapper)
        ensures
            r == Mapper::Udp(m),
    {
        Mapper::Udp(m)
    }
}

impl vstd::std_specs::convert::FromSpecImpl<UdpMapper> for Mapper {
    open spec fn obeys_from_spec() -> bool {
        true
    }

    open spec fn from_spec(m: UdpMapper) -> Mapper {
        Mapper::Udp(m)
    }
}

} // verus!
