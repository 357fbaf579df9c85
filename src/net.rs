//! Network address values: IP and socket addresses, local bind
//! configuration and remote endpoints.

use vstd::prelude::*;
use vstd::string::StringSliceAdditionalSpecFns;

use crate::error::DnsError;

verus! {

/// An IP address: an IPv4 address as its 32-bit value, or an IPv6 address as
/// its 128-bit value (both in network order, most significant byte first).
#[derive(Clone, Copy, Debug, PartialEq, Eq, Structural)]
pub enum IpAddr {
    V4(u32),
    V6(u128),
}

/// An IP address together with a port.
#[derive(Clone, Copy, Debug, PartialEq, Eq, Structural)]
pub struct SocketAddr {
    pub ip: IpAddr,
    pub port: u16,
}

/// IP version preference for DNS resolution.
#[derive(Clone, Copy, Debug, PartialEq, Eq, Structural)]
pub enum IpVer {
    /// Prefer IPv6 addresses.
    V6,
    /// Prefer IPv4 addresses.
    V4,
}

impl SocketAddr {
    pub fn new(ip: IpAddr, port: u16) -> (r: SocketAddr)
        ensures
            r.ip == ip,
            r.port == port,
    {
        SocketAddr { ip, port }
    }

    pub fn is_ipv4(&self) -> (r: bool)
        ensures
            r == (self.ip is V4),
    {
        match self.ip {
            IpAddr::V4(_) => true,
            IpAddr::V6(_) => false,
        }
    }
}

impl IpAddr {
    /// The unspecified address (`0.0.0.0` or `::`) of the given version.
    pub fn unspecified(v6: bool) -> (r: IpAddr)
        ensures
            r == (if v6 { IpAddr::V6(0) } else { IpAddr::V4(0) }),
    {
        if v6 {
            IpAddr::V6(0)
        } else {
            IpAddr::V4(0)
        }
    }
}

/// Longest network interface name, in bytes (the OS limit).
pub const IFNAMSIZ: usize = 16;

/// Local bind configuration: address, optional firewall mark, optional
/// interface, and whether a port held by another process may be reclaimed.
///
/// Sockets made from it have address and port reuse set.
#[derive(Debug)]
pub struct LocalAddr {
    pub local_addr: SocketAddr,
    pub fmark: Option<u32>,
    pub iface: Option<Vec<u8>>,
    pub reuse_port: bool,
}

impl LocalAddr {
    /// The state invariant: an interface name fits the OS limit.
    pub open spec fn wf(&self) -> bool {
        self.iface matches Some(n) ==> n@.len() <= IFNAMSIZ
    }

    /// The configured interface name, if any.
    pub open spec fn iface_name(&self) -> Option<Seq<u8>> {
        match self.iface {
            Some(n) => Some(n@),
            None => None,
        }
    }

    /// A bind configuration for `local_addr`, with no other option set.
    pub fn new(local_addr: SocketAddr) -> (r: LocalAddr)
        ensures
            r.wf(),
            r.local_addr == local_addr,
            r.fmark is None,
            r.iface_name() is None,
            !r.reuse_port,
    {
        LocalAddr { local_addr, fmark: None, iface: None, reuse_port: false }
    }

    /// Sets the firewall mark, for policy routing.
    pub fn with_fmark(self, fmark: u32) -> (r: LocalAddr)
        requires
            self.wf(),
        ensures
            r.wf(),
            r.local_addr == self.local_addr,
            r.fmark == Some(fmark),
            r.iface_name() == self.iface_name(),
            r.reuse_port == self.reuse_port,
    {
        LocalAddr { fmark: Some(fmark), ..self }
    }

    /// Binds sockets to the network interface named `iface` (e.g. `eth0`).
    pub fn with_iface(self, iface: &[u8]) -> (r: LocalAddr)
        requires
            self.wf(),
            iface@.len() <= IFNAMSIZ,
        ensures
            r.wf(),
            r.local_addr == self.local_addr,
            r.fmark == self.fmark,
            r.iface_name() == Some(iface@),
            r.reuse_port == self.reuse_port,
    {
        LocalAddr { iface: Some(copy_bytes(iface)), ..self }
    }

    /// Reclaims the port from sockets of other processes when binding finds
    /// it in use.
    pub fn force_reuse_port(self) -> (r: LocalAddr)
        requires
            self.wf(),
        ensures
            r.wf(),
            r.local_addr == self.local_addr,
            r.fmark == self.fmark,
            r.iface_name() == self.iface_name(),
            r.reuse_port,
    {
        LocalAddr { reuse_port: true, ..self }
    }

    /// The same configuration bound to `bound`, the concrete address that a
    /// first socket received: a second socket then shares its port, also
    /// when the configured port was 0 (ephemeral).
    pub fn rebound(&self, bound: SocketAddr) -> (r: LocalAddr)
        requires
            self.wf(),
        ensures
            r.wf(),
            r.local_addr == bound,
            r.fmark == self.fmark,
            r.iface_name() == self.iface_name(),
            r.reuse_port == self.reuse_port,
    {
        LocalAddr {
            local_addr: bound,
            fmark: self.fmark,
            iface: match &self.iface {
                Some(n) => Some(copy_bytes(n.as_slice())),
                None => None,
            },
            reuse_port: self.reuse_port,
        }
    }
}

fn copy_bytes(b: &[u8]) -> (r: Vec<u8>)
    ensures
        r@ == b@,
{
    let mut out: Vec<u8> = Vec::new();
    let mut i: usize = 0;
    while i < b.len()
        invariant
            i <= b@.len(),
            out@ == b@.subrange(0, i as int),
        decreases b@.len() - i,
    {
        out.push(b[i]);
        i = i + 1;
        assert(out@ =~= b@.subrange(0, i as int));
    }
    assert(out@ =~= b@);
    out
}

/// Whether an interface name of this byte length fits the OS limit.
pub open spec fn iface_fits(name: &str) -> bool {
    name.spec_bytes().len() <= IFNAMSIZ
}

/// An interface name longer than the OS limit.
#[derive(Clone, Copy, Debug, PartialEq, Eq, Structural)]
pub struct IfaceTooLong {
    /// The length of the name, in bytes.
    pub len: usize,
}

/// Checks that an interface name fits the OS limit of 16 bytes.
pub fn check_iface(name: &str) -> (r: Result<(), IfaceTooLong>)
    ensures
        r is Ok <==> iface_fits(name),
        r matches Err(e) ==> e.len == name.spec_bytes().len(),
{
    let len = name.as_bytes().len();
    if len <= IFNAMSIZ {
        Ok(())
    } else {
        Err(IfaceTooLong { len })
    }
}

/// How a remote endpoint is given.
#[derive(Clone, Debug)]
pub enum RemoteAddrKind {
    /// A bare socket address.
    Resolved(SocketAddr),
    /// A domain name, resolved at each connection attempt.
    Host { domain: String, port: u16, ver_preference: Option<IpVer> },
}

/// A remote endpoint: a resolved address, or a domain that needs a lookup.
#[derive(Clone, Debug)]
pub struct RemoteAddr {
    pub kind: RemoteAddrKind,
}

impl RemoteAddr {
    /// An endpoint at a resolved address (no lookup needed).
    pub fn from_addr(addr: SocketAddr) -> (r: RemoteAddr)
        ensures
            r.kind == RemoteAddrKind::Resolved(addr),
    {
        RemoteAddr { kind: RemoteAddrKind::Resolved(addr) }
    }

    /// An endpoint named by a domain and port, resolved at connection time.
    pub fn from_host(domain: String, port: u16, ver_preference: Option<IpVer>) -> (r: RemoteAddr)
        ensures
            r.kind == (RemoteAddrKind::Host { domain, port, ver_preference }),
    {
        RemoteAddr { kind: RemoteAddrKind::Host { domain, port, ver_preference } }
    }
}

impl From<SocketAddr> for RemoteAddr {
    fn from(addr: SocketAddr) -> (r: RemoteAddr)
        ensures
            r.kind == RemoteAddrKind::Resolved(addr),
    {
        RemoteAddr { kind: RemoteAddrKind::Resolved(addr) }
    }
}

impl vstd::std_specs::convert::FromSpecImpl<SocketAddr> for RemoteAddr {
    open spec fn obeys_from_spec() -> bool {
        true
    }

    open spec fn from_spec(addr: SocketAddr) -> RemoteAddr {
        RemoteAddr { kind: RemoteAddrKind::Resolved(addr) }
    }
}

/// A remote endpoint as plain values.
pub enum RemoteView {
    Resolved(SocketAddr),
    Host(Seq<char>, u16, Option<IpVer>),
}

pub open spec fn remote_view(r: RemoteAddr) -> RemoteView {
    match r.kind {
        RemoteAddrKind::Resolved(a) => RemoteView::Resolved(a),
        RemoteAddrKind::Host { domain, port, ver_preference } => RemoteView::Host(
            domain@,
            port,
            ver_preference,
        ),
    }
}

/// Whether `a` is of the preferred IP version (any version when none is preferred).
pub open spec fn version_matches(a: SocketAddr, ver: Option<IpVer>) -> bool {
    match ver {
        None => true,
        Some(IpVer::V4) => a.ip is V4,
        Some(IpVer::V6) => a.ip is V6,
    }
}

/// Picks, among the addresses that a lookup returned in order, the first of
/// the preferred IP version.
pub fn select_addr(addrs: &[SocketAddr], ver: Option<IpVer>) -> (r: Result<SocketAddr, DnsError>)
    ensures
        r matches Ok(a) ==> exists|i: int|
            0 <= i < addrs@.len() && addrs@[i] == a && version_matches(a, ver) && forall|j: int|
                0 <= j < i ==> !version_matches(#[trigger] addrs@[j], ver),
        r is Err <==> forall|j: int| 0 <= j < addrs@.len() ==> !version_matches(#[trigger] addrs@[j], ver),
        r matches Err(e) ==> e is AddrNotFound,
{
    let mut i: usize = 0;
    while i < addrs.len()
        invariant
            i <= addrs@.len(),
            forall|j: int| 0 <= j < i ==> !version_matches(#[trigger] addrs@[j], ver),
        decreases addrs@.len() - i,
    {
        let a = addrs[i];
        let fits = match ver {
            None => true,
            Some(IpVer::V4) => a.is_ipv4(),
            Some(IpVer::V6) => !a.is_ipv4(),
        };
        if fits {
            return Ok(a);
        }
        i = i + 1;
    }
    Err(DnsError::AddrNotFound)
}

} // verus!
