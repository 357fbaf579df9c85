//! Checking the tasks of a batch configuration file.
//!
//! The caller reads and deserializes the file; each entry arrives here as
//! plain values, a server's `host:port` with its reading as a socket
//! address attached.

use vstd::prelude::*;

use crate::cli::{interval_ms, parse_bind, spec_bind, spec_interval, AddrArg, Mode};
use crate::mapper::{Mapper, MapperBuilder, CHECK_PER_TICK};
use crate::net::{
    check_iface, remote_view, IpVer, LocalAddr, RemoteAddr, RemoteView, SocketAddr, IFNAMSIZ,
};

verus! {

/// Which server a host/port pair names.
#[derive(Clone, Copy, Debug, PartialEq, Eq, Structural)]
pub enum Role {
    Stun,
    Remote,
}

/// Why a batch configuration was refused.
#[derive(Clone, Copy, Debug, PartialEq, Eq, Structural)]
pub enum BatchError {
    /// Only one of the host and the port of a server is given.
    PartialServer(Role),
    /// A task has no STUN server, neither its own nor a default.
    MissingStun,
    /// A TCP task has no keepalive server, neither its own nor a default.
    MissingRemote,
    /// A UDP task names a keepalive server.
    RemoteInUdp,
    /// The bind address is neither `PORT` nor `ADDR:PORT`.
    InvalidBind,
    /// An interface name is longer than the OS limit.
    IfaceTooLong,
    /// A keepalive interval of zero for a TCP task.
    InvalidInterval,
    /// A probe count of zero.
    InvalidCount,
}

/// A server's host and port as the file gives them.
#[derive(Clone, Debug)]
pub struct ServerPair {
    pub host: Option<String>,
    pub port: Option<u16>,
    /// `host:port` read as a socket address, when both are given and it is one.
    pub socket: Option<SocketAddr>,
}

/// A server given by host and port.
#[derive(Debug)]
pub struct Server {
    pub host: String,
    pub port: u16,
    /// `host:port` read as a socket address, if it is one.
    pub socket: Option<SocketAddr>,
}

/// A server as plain values.
pub struct ServerView {
    pub host: Seq<char>,
    pub port: u16,
    pub socket: Option<SocketAddr>,
}

pub open spec fn server_view(s: Server) -> ServerView {
    ServerView { host: s.host@, port: s.port, socket: s.socket }
}

pub open spec fn opt_server_view(s: Option<Server>) -> Option<ServerView> {
    match s {
        Some(x) => Some(server_view(x)),
        None => None,
    }
}

/// The server that a pair gives: both parts, or neither (none).
pub open spec fn spec_pair(p: ServerPair, role: Role) -> Result<Option<ServerView>, BatchError> {
    match (p.host, p.port) {
        (Some(h), Some(port)) => Ok(Some(ServerView { host: h@, port, socket: p.socket })),
        (None, None) => Ok(None),
        _ => Err(BatchError::PartialServer(role)),
    }
}

/// The endpoint of a server: its socket address when `host:port` is one,
/// else the host to resolve with the version preference.
pub open spec fn spec_server_remote(s: ServerView, ver: Option<IpVer>) -> RemoteView {
    match s.socket {
        Some(a) => RemoteView::Resolved(a),
        None => RemoteView::Host(s.host, s.port, ver),
    }
}

impl Server {
    /// Both parts present: a server; both absent: none; one alone: an error.
    pub fn try_from_pair(pair: ServerPair, role: Role) -> (r: Result<Option<Server>, BatchError>)
        ensures
            match r {
                Ok(s) => spec_pair(pair, role) == Ok::<Option<ServerView>, BatchError>(
                    opt_server_view(s),
                ),
                Err(e) => spec_pair(pair, role) == Err::<Option<ServerView>, BatchError>(e),
            },
    {
        match (pair.host, pair.port) {
            (Some(host), Some(port)) => Ok(Some(Server { host, port, socket: pair.socket })),
            (None, None) => Ok(None),
            _ => Err(BatchError::PartialServer(role)),
        }
    }

    /// The endpoint of this server.
    pub fn into_remote_addr(self, ver: Option<IpVer>) -> (r: RemoteAddr)
        ensures
            remote_view(r) == spec_server_remote(server_view(self), ver),
    {
        match self.socket {
            Some(a) => RemoteAddr::from_addr(a),
            None => RemoteAddr::from_host(self.host, self.port, ver),
        }
    }

    fn copy(&self) -> (r: Server)
        ensures
            server_view(r) == server_view(*self),
    {
        Server { host: self.host.clone(), port: self.port, socket: self.socket }
    }
}

fn copy_server(s: &Option<Server>) -> (r: Option<Server>)
    ensures
        opt_server_view(r) == opt_server_view(*s),
{
    match s {
        Some(x) => Some(x.copy()),
        None => None,
    }
}

/// The `[default]` table of the file.
#[derive(Debug)]
pub struct Defaults {
    pub stun: ServerPair,
    pub remote: ServerPair,
    pub keepalive: Option<u64>,
    pub ipv6: Option<bool>,
    pub iface: Option<String>,
    pub fwmark: Option<u32>,
    pub force_reuse: Option<bool>,
}

/// Defaults whose servers have been checked.
#[derive(Debug)]
pub struct ParsedDefaults {
    pub stun: Option<Server>,
    pub remote: Option<Server>,
    pub keepalive: Option<u64>,
    pub ipv6: Option<bool>,
    pub iface: Option<String>,
    pub fwmark: Option<u32>,
    pub force_reuse: Option<bool>,
}

/// Whether an interface name fits the OS limit.
pub open spec fn name_fits(n: Option<Seq<char>>) -> bool {
    n matches Some(s) ==> vstd::utf8::encode_utf8(s).len() <= IFNAMSIZ
}

/// Defaults as plain values.
pub struct DefaultsView {
    pub stun: Option<ServerView>,
    pub remote: Option<ServerView>,
    pub keepalive: Option<u64>,
    pub ipv6: Option<bool>,
    pub iface: Option<Seq<char>>,
    pub fwmark: Option<u32>,
    pub force_reuse: Option<bool>,
}

impl ParsedDefaults {
    pub open spec fn wf(&self) -> bool {
        name_fits(opt_str_view(self.iface))
    }

    pub open spec fn view(&self) -> DefaultsView {
        DefaultsView {
            stun: opt_server_view(self.stun),
            remote: opt_server_view(self.remote),
            keepalive: self.keepalive,
            ipv6: self.ipv6,
            iface: opt_str_view(self.iface),
            fwmark: self.fwmark,
            force_reuse: self.force_reuse,
        }
    }
}

/// What valid defaults `d` stand for.
pub open spec fn defaults_view(d: Defaults) -> DefaultsView {
    DefaultsView {
        stun: match spec_pair(d.stun, Role::Stun) {
            Ok(s) => s,
            Err(_) => None,
        },
        remote: match spec_pair(d.remote, Role::Remote) {
            Ok(s) => s,
            Err(_) => None,
        },
        keepalive: d.keepalive,
        ipv6: d.ipv6,
        iface: opt_str_view(d.iface),
        fwmark: d.fwmark,
        force_reuse: d.force_reuse,
    }
}

/// The characters of an optional string.
pub open spec fn opt_str_view(n: Option<String>) -> Option<Seq<char>> {
    match n {
        Some(s) => Some(s@),
        None => None,
    }
}

impl Defaults {
    /// Checks the default servers and interface name.
    pub fn into_parsed(self) -> (r: Result<ParsedDefaults, BatchError>)
        ensures
            match r {
                Ok(p) => defaults_error(self) is None && p.wf() && p.view() == defaults_view(self),
                Err(e) => defaults_error(self) == Some(e),
            },
    {
        let stun = match Server::try_from_pair(self.stun, Role::Stun) {
            Ok(s) => s,
            Err(e) => return Err(e),
        };
        let remote = match Server::try_from_pair(self.remote, Role::Remote) {
            Ok(s) => s,
            Err(e) => return Err(e),
        };
        if let Some(name) = &self.iface {
            if check_iface(name.as_str()).is_err() {
                return Err(BatchError::IfaceTooLong);
            }
        }
        Ok(ParsedDefaults {
            stun,
            remote,
            keepalive: self.keepalive,
            ipv6: self.ipv6,
            iface: self.iface,
            fwmark: self.fwmark,
            force_reuse: self.force_reuse,
        })
    }
}

/// The first reason to refuse the defaults, if any.
pub open spec fn defaults_error(d: Defaults) -> Option<BatchError> {
    if spec_pair(d.stun, Role::Stun) is Err {
        Some(BatchError::PartialServer(Role::Stun))
    } else if spec_pair(d.remote, Role::Remote) is Err {
        Some(BatchError::PartialServer(Role::Remote))
    } else if !name_fits(opt_str_view(d.iface)) {
        Some(BatchError::IfaceTooLong)
    } else {
        None
    }
}

/// One `[task.NAME]` table of the file.
#[derive(Debug)]
pub struct TaskEntry {
    pub mode: Mode,
    pub bind: AddrArg,
    pub stun: ServerPair,
    pub remote: ServerPair,
    pub keepalive: Option<u64>,
    pub count: Option<usize>,
    pub ipv6: Option<bool>,
    pub iface: Option<String>,
    pub fwmark: Option<u32>,
    pub force_reuse: Option<bool>,
    /// Command run on each change of the public address.
    pub exec_command: Option<String>,
}

/// What a task runs over, with its protocol-specific settings.
#[derive(Debug)]
pub enum RunMode {
    Tcp { remote: RemoteAddr },
    Udp { count: usize },
}

/// The checked configuration of one mapping task.
#[derive(Debug)]
pub struct TaskConfig {
    pub mode: RunMode,
    pub bind: SocketAddr,
    pub stun: RemoteAddr,
    /// Keepalive interval in milliseconds.
    pub interval_ms: u64,
    pub exec_command: Option<String>,
    pub iface: Option<String>,
    pub fwmark: Option<u32>,
    pub force_reuse: bool,
}

impl TaskConfig {
    pub open spec fn wf(&self) -> bool {
        &&& name_fits(opt_str_view(self.iface))
        &&& self.mode matches RunMode::Udp { count } ==> count >= 1
    }

    /// The mapper that these settings describe.
    pub fn into_mapper(self) -> (r: Mapper)
        requires
            self.wf(),
        ensures
            match r {
                Mapper::Tcp(t) => self.mode matches RunMode::Tcp { remote } && t.remote == remote
                    && t.stun == self.stun && t.local.local_addr == self.bind
                    && t.tick_interval_ms == self.interval_ms && t.local.fmark == self.fwmark
                    && t.local.iface_name() == iface_bytes(self.iface) && t.local.reuse_port
                    == self.force_reuse,
                Mapper::Udp(u) => self.mode matches RunMode::Udp { count } && u.check_per_tick
                    == count && u.stun == self.stun && u.local.local_addr == self.bind
                    && u.interval_ms == self.interval_ms && u.local.fmark == self.fwmark
                    && u.local.iface_name() == iface_bytes(self.iface) && u.local.reuse_port
                    == self.force_reuse,
            },
    {
        let mut local = LocalAddr::new(self.bind);
        if let Some(fmark) = self.fwmark {
            local = local.with_fmark(fmark);
        }
        if let Some(name) = &self.iface {
            local = local.with_iface(name.as_str().as_bytes());
        }
        if self.force_reuse {
            local = local.force_reuse_port();
        }
        match self.mode {
            RunMode::Tcp { remote } => Mapper::Tcp(
                MapperBuilder::new_tcp(local, self.stun, remote).interval(self.interval_ms).build(),
            ),
            RunMode::Udp { count } => Mapper::Udp(
                MapperBuilder::new_udp(local, self.stun).check_per_tick(count).interval(
                    self.interval_ms,
                ).build(),
            ),
        }
    }
}

/// The bytes of an interface name, if any.
pub open spec fn iface_bytes(n: Option<String>) -> Option<Seq<u8>> {
    match n {
        Some(s) => Some(vstd::utf8::encode_utf8(s@)),
        None => None,
    }
}

/// The task's value, else the default's.
pub open spec fn or_default<T>(own: Option<T>, default: Option<T>) -> Option<T> {
    match own {
        Some(v) => Some(v),
        None => default,
    }
}

/// Whether the task prefers IPv6 (its own setting, else the default, else no).
pub open spec fn task_ipv6(e: TaskEntry, d: DefaultsView) -> bool {
    or_default(e.ipv6, d.ipv6) == Some(true)
}

/// The server that a task uses for `role`: its own, else the default.
pub open spec fn task_server(own: ServerPair, default: Option<ServerView>, role: Role) -> Option<ServerView> {
    match spec_pair(own, role) {
        Ok(Some(s)) => Some(s),
        _ => default,
    }
}

/// The first reason, in the order they are checked, to refuse a task.
pub open spec fn entry_error(e: TaskEntry, d: DefaultsView) -> Option<BatchError> {
    let ipv6 = task_ipv6(e, d);
    if spec_pair(e.stun, Role::Stun) is Err {
        Some(BatchError::PartialServer(Role::Stun))
    } else if task_server(e.stun, d.stun, Role::Stun) is None {
        Some(BatchError::MissingStun)
    } else if spec_bind(e.bind, ipv6) is None {
        Some(BatchError::InvalidBind)
    } else if spec_interval(or_default(e.keepalive, d.keepalive), e.mode) is None {
        Some(BatchError::InvalidInterval)
    } else if e.mode == Mode::Tcp && spec_pair(e.remote, Role::Remote) is Err {
        Some(BatchError::PartialServer(Role::Remote))
    } else if e.mode == Mode::Tcp && task_server(e.remote, d.remote, Role::Remote) is None {
        Some(BatchError::MissingRemote)
    } else if e.mode == Mode::Udp && (e.remote.host is Some || e.remote.port is Some) {
        Some(BatchError::RemoteInUdp)
    } else if e.mode == Mode::Udp && e.count == Some(0usize) {
        Some(BatchError::InvalidCount)
    } else if !name_fits(opt_str_view(e.iface)) {
        Some(BatchError::IfaceTooLong)
    } else {
        None
    }
}

/// Whether `c` is the configuration that a valid task `e` with defaults `d` gives.
pub open spec fn config_matches(c: TaskConfig, e: TaskEntry, d: DefaultsView) -> bool {
    let ipv6 = task_ipv6(e, d);
    let ver = Some(if ipv6 { IpVer::V6 } else { IpVer::V4 });
    &&& c.wf()
    &&& Some(c.bind) == spec_bind(e.bind, ipv6)
    &&& remote_view(c.stun) == spec_server_remote(task_server(e.stun, d.stun, Role::Stun).unwrap(), ver)
    &&& Some(c.interval_ms) == spec_interval(or_default(e.keepalive, d.keepalive), e.mode)
    &&& match c.mode {
        RunMode::Tcp { remote } => e.mode == Mode::Tcp && remote_view(remote) == spec_server_remote(
            task_server(e.remote, d.remote, Role::Remote).unwrap(),
            ver,
        ),
        RunMode::Udp { count } => e.mode == Mode::Udp && count == match e.count {
            Some(n) => n,
            None => CHECK_PER_TICK,
        },
    }
    &&& c.exec_command == e.exec_command
    &&& opt_str_view(c.iface) == or_default(opt_str_view(e.iface), d.iface)
    &&& c.fwmark == or_default(e.fwmark, d.fwmark)
    &&& c.force_reuse == (or_default(e.force_reuse, d.force_reuse) == Some(true))
}

fn choose_server(own: ServerPair, default: &Option<Server>, role: Role) -> (r: Result<
    Option<Server>,
    BatchError,
>)
    ensures
        match r {
            Ok(s) => spec_pair(own, role) is Ok && opt_server_view(s) == task_server(
                own,
                opt_server_view(*default),
                role,
            ),
            Err(e) => spec_pair(own, role) == Err::<Option<ServerView>, BatchError>(e),
        },
{
    match Server::try_from_pair(own, role) {
        Ok(Some(s)) => Ok(Some(s)),
        Ok(None) => Ok(copy_server(default)),
        Err(e) => Err(e),
    }
}

fn copy_string(s: &Option<String>) -> (r: Option<String>)
    ensures
        match (r, *s) {
            (Some(a), Some(b)) => a@ == b@,
            (None, None) => true,
            _ => false,
        },
{
    match s {
        Some(x) => Some(x.clone()),
        None => None,
    }
}

impl TaskEntry {
    /// Checks a task against the defaults, and merges the two: the task's
    /// own settings win.
    pub fn into_config(self, defaults: &ParsedDefaults) -> (r: Result<TaskConfig, BatchError>)
        requires
            defaults.wf(),
        ensures
            match r {
                Ok(c) => entry_error(self, defaults.view()) is None && config_matches(
                    c,
                    self,
                    defaults.view(),
                ),
                Err(e) => entry_error(self, defaults.view()) == Some(e),
            },
    {
        let ipv6 = match self.ipv6 {
            Some(v) => v,
            None => match defaults.ipv6 {
                Some(v) => v,
                None => false,
            },
        };
        let ver = Some(if ipv6 { IpVer::V6 } else { IpVer::V4 });
        let stun = match choose_server(self.stun, &defaults.stun, Role::Stun) {
            Ok(Some(s)) => s.into_remote_addr(ver),
            Ok(None) => return Err(BatchError::MissingStun),
            Err(e) => return Err(e),
        };
        let bind = match parse_bind(&self.bind, ipv6) {
            Ok(b) => b,
            Err(_) => return Err(BatchError::InvalidBind),
        };
        let secs = match self.keepalive {
            Some(v) => Some(v),
            None => defaults.keepalive,
        };
        let interval_ms = match interval_ms(secs, self.mode) {
            Some(ms) => ms,
            None => return Err(BatchError::InvalidInterval),
        };
        let mode = match self.mode {
            Mode::Tcp => match choose_server(self.remote, &defaults.remote, Role::Remote) {
                Ok(Some(s)) => RunMode::Tcp { remote: s.into_remote_addr(ver) },
                Ok(None) => return Err(BatchError::MissingRemote),
                Err(e) => return Err(e),
            },
            Mode::Udp => {
                if self.remote.host.is_some() || self.remote.port.is_some() {
                    return Err(BatchError::RemoteInUdp);
                }
                match self.count {
                    Some(0) => return Err(BatchError::InvalidCount),
                    Some(n) => RunMode::Udp { count: n },
                    None => RunMode::Udp { count: CHECK_PER_TICK },
                }
            },
        };
        let iface = match self.iface {
            Some(name) => {
                if check_iface(name.as_str()).is_err() {
                    return Err(BatchError::IfaceTooLong);
                }
                Some(name)
            },
            None => copy_string(&defaults.iface),
        };
        let fwmark = match self.fwmark {
            Some(v) => Some(v),
            None => defaults.fwmark,
        };
        let force_reuse = match self.force_reuse {
            Some(v) => v,
            None => match defaults.force_reuse {
                Some(v) => v,
                None => false,
            },
        };
        let c = TaskConfig {
            mode,
            bind,
            stun,
            interval_ms,
            exec_command: self.exec_command,
            iface,
            fwmark,
            force_reuse,
        };
        Ok(c)
    }
}

/// A batch file as read: optional log level, defaults, and named tasks.
#[derive(Debug)]
pub struct BatchFile {
    pub log_level: Option<String>,
    pub default: Defaults,
    pub task: Vec<(String, TaskEntry)>,
}

/// The checked tasks of a batch file.
#[derive(Debug)]
pub struct MultiConfig {
    pub log_level: Option<String>,
    pub tasks: Vec<(String, TaskConfig)>,
}

/// Why a batch file was refused.
#[derive(Debug)]
pub enum LoadError {
    /// The file has no tasks.
    NoTasks,
    /// The `[default]` table is invalid.
    Defaults(BatchError),
    /// The named task is invalid.
    Task(String, BatchError),
}

impl MultiConfig {
    /// Checks every task of the file against its defaults, in file order,
    /// and stops at the first invalid one.
    pub fn load(file: BatchFile) -> (r: Result<MultiConfig, LoadError>)
        ensures
            file.task@.len() == 0 ==> r matches Err(LoadError::NoTasks),
            file.task@.len() > 0 && defaults_error(file.default) is Some ==> (r matches Err(
                LoadError::Defaults(x),
            ) && Some(x) == defaults_error(file.default)),
            r matches Err(LoadError::Task(name, e)) ==> exists|i: int|
                0 <= i < file.task@.len() && file.task@[i].0@ == name@ && #[trigger] entry_error(
                    file.task@[i].1,
                    defaults_view(file.default),
                ) == Some(e) && forall|j: int|
                    0 <= j < i ==> entry_error(#[trigger] file.task@[j].1, defaults_view(file.default))
                        is None,
            file.task@.len() > 0 && defaults_error(file.default) is None && (forall|i: int|
                0 <= i < file.task@.len() ==> entry_error(
                    #[trigger] file.task@[i].1,
                    defaults_view(file.default),
                ) is None) ==> r is Ok,
            r matches Ok(m) ==> m.log_level == file.log_level && m.tasks@.len() == file.task@.len()
                && forall|i: int|
                0 <= i < file.task@.len() ==> m.tasks@[i].0@ == file.task@[i].0@ && config_matches(
                    #[trigger] m.tasks@[i].1,
                    file.task@[i].1,
                    defaults_view(file.default),
                ),
    {
        let n = file.task.len();
        if n == 0 {
            return Err(LoadError::NoTasks);
        }
        let ghost entries = file.task@;
        let ghost d0 = file.default;
        let defaults = match file.default.into_parsed() {
            Ok(p) => p,
            Err(e) => return Err(LoadError::Defaults(e)),
        };
        let mut rest = file.task;
        let mut tasks: Vec<(String, TaskConfig)> = Vec::new();
        let mut i: usize = 0;
        while rest.len() > 0
            invariant
                defaults.wf(),
                defaults.view() == defaults_view(d0),
                d0 == file.default,
                entries == file.task@,
                entries.len() == n,
                defaults_error(d0) is None,
                i + rest@.len() == entries.len(),
                rest@ == entries.skip(i as int),
                tasks@.len() == i,
                forall|j: int| 0 <= j < i ==> (#[trigger] tasks@[j]).0@ == entries[j].0@,
                forall|j: int|
                    0 <= j < i ==> config_matches(#[trigger] tasks@[j].1, entries[j].1, defaults.view()),
                forall|j: int| 0 <= j < i ==> entry_error(#[trigger] entries[j].1, defaults.view()) is None,
            decreases rest@.len(),
        {
            let (name, entry) = rest.remove(0);
            assert(entries[i as int] == (name, entry));
            let c = match entry.into_config(&defaults) {
                Ok(c) => c,
                Err(e) => {
                    assert(entry_error(file.task@[i as int].1, defaults_view(file.default)) == Some(e));
                    return Err(LoadError::Task(name, e));
                },
            };
            let ghost before = tasks@;
            let ghost cv = c;
            assert(config_matches(cv, entries[i as int].1, defaults.view()));
            tasks.push((name, c));
            assert forall|j: int| 0 <= j < i + 1 implies config_matches(
                #[trigger] tasks@[j].1,
                entries[j].1,
                defaults.view(),
            ) by {
                if j < i {
                    assert(tasks@[j] == before[j]);
                    assert(config_matches(before[j].1, entries[j].1, defaults.view()));
                } else {
                    assert(tasks@[j].1 == cv);
                }
            }
            assert forall|j: int| 0 <= j < i + 1 implies (#[trigger] tasks@[j]).0@ == entries[j].0@ by {
                if j < i {
                    assert(tasks@[j] == before[j]);
                }
            }
            i = i + 1;
            assert(rest@ =~= entries.skip(i as int));
        }
        Ok(MultiConfig { log_level: file.log_level, tasks })
    }
}

} // verus!
