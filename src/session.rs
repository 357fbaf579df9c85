//! The decisions of a mapping session, as a state machine.
//!
//! The caller performs the I/O: it builds sockets, resolves names, runs STUN
//! exchanges and sends keepalives, and reports each outcome as an [`Event`].
//! [`Session::step`] answers with the [`Action`] to perform next. Changes of
//! the public address are reported by [`Action::Notify`], exactly when the
//! observed address differs from the last one reported.

use vstd::prelude::*;

use crate::error::{stun_error_kind, Error, StunError};
use crate::mapper::MappingInfo;
use crate::net::SocketAddr;

verus! {

/// Consecutive failures after which a session gives up.
pub const RETRY_LIMIT: usize = 5;

/// Pause between setup attempts after a failure, in milliseconds.
pub const BACKOFF_MS: u64 = 5000;

/// Transport of a session; fixed for its lifetime.
#[derive(Clone, Copy, Debug, PartialEq, Eq, Structural)]
pub enum Protocol {
    Tcp,
    Udp,
}

/// Where a session stands.
#[derive(Clone, Copy, Debug, PartialEq, Eq, Structural)]
pub enum Phase {
    /// Sockets, name resolution and the first STUN exchange are under way.
    Setup,
    /// Set up; waiting for the next keepalive tick (or, over TCP, for the
    /// keepalive stream to end).
    Running,
    /// A STUN probe is in flight (UDP).
    Probing,
    /// A keepalive is being sent.
    Sending,
    /// The session has failed for good.
    Faulted,
}

/// What happened since the last step.
#[derive(Debug)]
pub enum Event {
    /// Setup succeeded and observed this mapping.
    SetupDone(MappingInfo),
    /// Setup failed.
    SetupFailed(Error),
    /// The keepalive interval elapsed.
    Tick,
    /// A STUN probe observed this public address.
    ProbeDone(SocketAddr),
    /// A STUN probe failed.
    ProbeFailed(StunError),
    /// A keepalive was sent.
    SendDone,
    /// Sending a keepalive failed.
    SendFailed(std::io::Error),
    /// The peer closed the keepalive stream (TCP).
    StreamClosed,
    /// Reading the keepalive stream failed (TCP).
    StreamFailed(std::io::Error),
}

/// What to do next.
#[derive(Debug)]
pub enum Action {
    /// Report this mapping to the change handler, then carry on running.
    Notify(MappingInfo),
    /// Carry on running: wait for the next tick or stream event.
    Run,
    /// Run a STUN probe now.
    Probe,
    /// Send a keepalive now.
    SendKeepalive,
    /// Set up again at once.
    Setup,
    /// Wait for the backoff pause, then set up again.
    Backoff,
    /// Give up and return this error.
    Fail(Error),
    /// Nothing: the event does not apply where the session stands.
    Wait,
}

/// The live state of one mapping session.
#[derive(Clone, Copy, Debug)]
pub struct Session {
    pub protocol: Protocol,
    pub phase: Phase,
    /// The public address most recently reported (none at first).
    pub last_public: Option<SocketAddr>,
    /// The local address bound by the current setup.
    pub local_addr: Option<SocketAddr>,
    /// Consecutive setup failures since the last success.
    pub retry_count: usize,
    /// Keepalive ticks since the last successful probe (UDP).
    pub ticks: usize,
    /// Consecutive failed probes or sends while running (UDP).
    pub failures: usize,
    /// One STUN probe per this many ticks (UDP).
    pub check_per_tick: usize,
}

impl Session {
    /// The state invariant.
    pub open spec fn wf(&self) -> bool {
        &&& self.check_per_tick >= 1
        &&& self.ticks < self.check_per_tick
        &&& self.failures < RETRY_LIMIT
        &&& self.retry_count <= RETRY_LIMIT
        &&& self.phase != Phase::Faulted ==> self.retry_count < RETRY_LIMIT
        &&& (self.phase == Phase::Running || self.phase == Phase::Probing || self.phase
            == Phase::Sending) ==> self.local_addr is Some
        &&& (self.phase == Phase::Sending && self.protocol == Protocol::Udp) ==> self.ticks + 1
            < self.check_per_tick
    }

    /// The state after a recoverable-or-not failure with error `e`, and
    /// the action it calls for.
    pub open spec fn spec_fail(self, e: Error) -> (Session, Action) {
        if !e.spec_is_recoverable() {
            (Session { phase: Phase::Faulted, ..self }, Action::Fail(e))
        } else if self.retry_count + 1 >= RETRY_LIMIT {
            (
                Session { phase: Phase::Faulted, retry_count: (self.retry_count + 1) as usize, ..self },
                Action::Fail(e),
            )
        } else {
            (
                Session { phase: Phase::Setup, retry_count: (self.retry_count + 1) as usize, ..self },
                Action::Backoff,
            )
        }
    }

    /// The state after observing public address `a` while bound to `local`,
    /// and whether it is reported.
    pub open spec fn spec_observe(self, a: SocketAddr, local: SocketAddr) -> (Session, Action) {
        let s = Session {
            phase: Phase::Running,
            local_addr: Some(local),
            ticks: 0,
            failures: 0,
            last_public: Some(a),
            ..self
        };
        if self.last_public != Some(a) {
            (s, Action::Notify(MappingInfo { pub_addr: a, local_addr: local }))
        } else {
            (s, Action::Run)
        }
    }

    /// A probe or send failure while running: tolerated until the
    /// consecutive failures reach the limit, then treated as a failure `e`.
    pub open spec fn spec_running_failure(self, e: Error) -> (Session, Action) {
        if self.failures + 1 >= RETRY_LIMIT {
            Session { failures: 0, ticks: 0, ..self }.spec_fail(e)
        } else {
            (Session { phase: Phase::Running, failures: (self.failures + 1) as usize, ..self }, Action::Run)
        }
    }

    /// The transition of the session on event `e`.
    pub open spec fn next(self, e: Event) -> (Session, Action) {
        match (self.phase, e) {
            (Phase::Setup, Event::SetupDone(info)) => {
                Session { retry_count: 0, ..self }.spec_observe(info.pub_addr, info.local_addr)
            },
            (Phase::Setup, Event::SetupFailed(err)) => self.spec_fail(err),
            (Phase::Running, Event::Tick) => {
                if self.protocol == Protocol::Udp && self.ticks + 1 == self.check_per_tick {
                    (Session { phase: Phase::Probing, ..self }, Action::Probe)
                } else {
                    (Session { phase: Phase::Sending, ..self }, Action::SendKeepalive)
                }
            },
            (Phase::Probing, Event::ProbeDone(a)) => self.spec_observe(a, self.local_addr.unwrap()),
            (Phase::Probing, Event::ProbeFailed(err)) => self.spec_running_failure(
                stun_error_kind(err),
            ),
            (Phase::Sending, Event::SendDone) => {
                let ticks = if self.protocol == Protocol::Udp {
                    (self.ticks + 1) as usize
                } else {
                    self.ticks
                };
                (Session { phase: Phase::Running, ticks, failures: 0, ..self }, Action::Run)
            },
            (Phase::Sending, Event::SendFailed(io)) => {
                if self.protocol == Protocol::Udp {
                    self.spec_running_failure(Error::Keepalive(io))
                } else {
                    self.spec_fail(Error::Keepalive(io))
                }
            },
            (Phase::Running, Event::StreamClosed) => {
                if self.protocol == Protocol::Tcp {
                    (Session { phase: Phase::Setup, ..self }, Action::Setup)
                } else {
                    (self, Action::Wait)
                }
            },
            (Phase::Running, Event::StreamFailed(io)) => {
                if self.protocol == Protocol::Tcp {
                    self.spec_fail(Error::Keepalive(io))
                } else {
                    (self, Action::Wait)
                }
            },
            _ => (self, Action::Wait),
        }
    }

    /// A fresh session, about to set up for the first time.
    pub fn new(protocol: Protocol, check_per_tick: usize) -> (r: Session)
        requires
            check_per_tick >= 1,
        ensures
            r.wf(),
            r.protocol == protocol,
            r.phase == Phase::Setup,
            r.last_public is None,
            r.retry_count == 0,
            r.check_per_tick == check_per_tick,
    {
        Session {
            protocol,
            phase: Phase::Setup,
            last_public: None,
            local_addr: None,
            retry_count: 0,
            ticks: 0,
            failures: 0,
            check_per_tick,
        }
    }

    fn fail(&mut self, e: Error) -> (r: Action)
        requires
            old(self).wf(),
            old(self).phase != Phase::Faulted,
        ensures
            (*final(self), r) == old(self).spec_fail(e),
            final(self).wf(),
    {
        if !e.is_recoverable() {
            self.phase = Phase::Faulted;
            Action::Fail(e)
        } else if self.retry_count + 1 >= RETRY_LIMIT {
            self.retry_count = self.retry_count + 1;
            self.phase = Phase::Faulted;
            Action::Fail(e)
        } else {
            self.retry_count = self.retry_count + 1;
            self.phase = Phase::Setup;
            Action::Backoff
        }
    }

    fn observe(&mut self, a: SocketAddr, local: SocketAddr) -> (r: Action)
        requires
            old(self).wf(),
            old(self).phase != Phase::Faulted,
        ensures
            (*final(self), r) == old(self).spec_observe(a, local),
            final(self).wf(),
    {
        let changed = match self.last_public {
            Some(p) => p != a,
            None => true,
        };
        self.phase = Phase::Running;
        self.local_addr = Some(local);
        self.ticks = 0;
        self.failures = 0;
        self.last_public = Some(a);
        if changed {
            Action::Notify(MappingInfo { pub_addr: a, local_addr: local })
        } else {
            Action::Run
        }
    }

    fn running_failure(&mut self, e: Error) -> (r: Action)
        requires
            old(self).wf(),
            old(self).phase != Phase::Faulted,
            old(self).local_addr is Some,
        ensures
            (*final(self), r) == old(self).spec_running_failure(e),
            final(self).wf(),
    {
        if self.failures + 1 >= RETRY_LIMIT {
            self.failures = 0;
            self.ticks = 0;
            self.fail(e)
        } else {
            self.phase = Phase::Running;
            self.failures = self.failures + 1;
            Action::Run
        }
    }

    /// Advances the session on event `e` and returns the action to perform.
    pub fn step(&mut self, e: Event) -> (r: Action)
        requires
            old(self).wf(),
        ensures
            (*final(self), r) == old(self).next(e),
            final(self).wf(),
    {
        match (self.phase, e) {
            (Phase::Setup, Event::SetupDone(info)) => {
                self.retry_count = 0;
                self.observe(info.pub_addr, info.local_addr)
            },
            (Phase::Setup, Event::SetupFailed(err)) => self.fail(err),
            (Phase::Running, Event::Tick) => {
                if matches!(self.protocol, Protocol::Udp) && self.ticks + 1 == self.check_per_tick {
                    self.phase = Phase::Probing;
                    Action::Probe
                } else {
                    self.phase = Phase::Sending;
                    Action::SendKeepalive
                }
            },
            (Phase::Probing, Event::ProbeDone(a)) => {
                let local = self.local_addr.unwrap();
                self.observe(a, local)
            },
            (Phase::Probing, Event::ProbeFailed(err)) => self.running_failure(Error::from(err)),
            (Phase::Sending, Event::SendDone) => {
                if matches!(self.protocol, Protocol::Udp) {
                    self.ticks = self.ticks + 1;
                }
                self.phase = Phase::Running;
                self.failures = 0;
                Action::Run
            },
            (Phase::Sending, Event::SendFailed(io)) => {
                if matches!(self.protocol, Protocol::Udp) {
                    self.running_failure(Error::Keepalive(io))
                } else {
                    self.fail(Error::Keepalive(io))
                }
            },
            (Phase::Running, Event::StreamClosed) => {
                if matches!(self.protocol, Protocol::Tcp) {
                    self.phase = Phase::Setup;
                    Action::Setup
                } else {
                    Action::Wait
                }
            },
            (Phase::Running, Event::StreamFailed(io)) => {
                if matches!(self.protocol, Protocol::Tcp) {
                    self.fail(Error::Keepalive(io))
                } else {
                    Action::Wait
                }
            },
            _ => Action::Wait,
        }
    }
}

/// The public addresses reported, in order, while a session in state `s`
/// goes through the events `evs`.
pub open spec fn notified(s: Session, evs: Seq<Event>) -> Seq<SocketAddr>
    decreases evs.len(),
{
    if evs.len() == 0 {
        Seq::empty()
    } else {
        let (s1, a) = s.next(evs[0]);
        let rest = notified(s1, evs.drop_first());
        match a {
            Action::Notify(info) => seq![info.pub_addr] + rest,
            _ => rest,
        }
    }
}

proof fn lemma_next_reports(s: Session, e: Event)
    ensures
        s.next(e).1 matches Action::Notify(info) ==> s.last_public != Some(info.pub_addr)
            && s.next(e).0.last_public == Some(info.pub_addr),
        !(s.next(e).1 is Notify) ==> s.next(e).0.last_public == s.last_public,
{
}

/// A report is made only when the observed address differs from the last
/// one reported, so the first report differs from the address known at the
/// start, and each report differs from the one before it.
pub proof fn lemma_reports_differ(s: Session, evs: Seq<Event>)
    ensures
        notified(s, evs).len() > 0 ==> s.last_public != Some(notified(s, evs)[0]),
        forall|i: int|
            0 <= i < notified(s, evs).len() - 1 ==> #[trigger] notified(s, evs)[i] != notified(
                s,
                evs,
            )[i + 1],
    decreases evs.len(),
{
    if evs.len() > 0 {
        let (s1, a) = s.next(evs[0]);
        let rest = notified(s1, evs.drop_first());
        lemma_reports_differ(s1, evs.drop_first());
        lemma_next_reports(s, evs[0]);
        let ns = notified(s, evs);
        if let Action::Notify(info) = a {
            assert(ns == seq![info.pub_addr] + rest);
            assert forall|i: int| 0 <= i < ns.len() - 1 implies #[trigger] ns[i] != ns[i + 1] by {
                if i > 0 {
                    assert(ns[i] == rest[i - 1]);
                    assert(ns[i + 1] == rest[i]);
                }
            }
        } else {
            assert(ns == rest);
        }
    }
}

proof fn lemma_faulted_reports_nothing(s: Session, evs: Seq<Event>)
    requires
        s.phase == Phase::Faulted,
    ensures
        notified(s, evs).len() == 0,
    decreases evs.len(),
{
    if evs.len() > 0 {
        lemma_faulted_reports_nothing(s, evs.drop_first());
    }
}

/// A socket error during setup ends the session at once, and once a session
/// has given up with an error, no event makes it report anything.
pub proof fn lemma_no_report_after_failure(s: Session, e: Event, evs: Seq<Event>)
    ensures
        s.phase == Phase::Setup ==> (e matches Event::SetupFailed(err) && err is Socket ==> s.next(
            e,
        ).1 is Fail),
        s.next(e).1 is Fail ==> notified(s.next(e).0, evs).len() == 0,
{
    if s.next(e).1 is Fail {
        lemma_faulted_reports_nothing(s.next(e).0, evs);
    }
}

/// A keepalive schedule that does not drift: tick `n` falls due `n` periods
/// after the start, whenever the tick before it actually ran.
#[derive(Clone, Copy, Debug)]
pub struct Ticker {
    /// The keepalive interval, in milliseconds.
    pub period_ms: u64,
    /// Ticks fired so far.
    pub fired: u64,
    /// The latest time seen, in milliseconds since the start.
    pub latest_ms: u64,
}

impl Ticker {
    /// The state invariant: every fired tick was due when it fired.
    pub open spec fn wf(&self) -> bool {
        self.fired > 0 ==> (self.fired - 1) * self.period_ms <= self.latest_ms
    }

    /// A schedule with the given period; a period of 0 makes every tick due at once.
    pub fn new(period_ms: u64) -> (r: Ticker)
        ensures
            r.wf(),
            r.period_ms == period_ms,
            r.fired == 0,
    {
        Ticker { period_ms, fired: 0, latest_ms: 0 }
    }

    /// When the next tick falls due, in milliseconds since the start.
    pub fn next_due(&self) -> (r: u128)
        ensures
            r == self.fired * self.period_ms,
    {
        proof {
            assert(self.fired * self.period_ms <= u64::MAX * u64::MAX) by (nonlinear_arith);
        }
        self.fired as u128 * self.period_ms as u128
    }

    /// Called at `now_ms`; fires the tick that is due, if any, and says
    /// whether it did.
    pub fn poll(&mut self, now_ms: u64) -> (r: bool)
        requires
            old(self).wf(),
        ensures
            final(self).wf(),
            final(self).period_ms == old(self).period_ms,
            r == (old(self).fired * old(self).period_ms <= now_ms && old(self).fired < u64::MAX),
            final(self).fired == (if r { old(self).fired + 1 } else { old(self).fired as int }),
            final(self).latest_ms == (if now_ms > old(self).latest_ms { now_ms } else { old(self).latest_ms }),
    {
        let due = self.next_due();
        let fire = due <= now_ms as u128 && self.fired < u64::MAX;
        if now_ms > self.latest_ms {
            self.latest_ms = now_ms;
        }
        if fire {
            self.fired = self.fired + 1;
        }
        fire
    }
}

/// Keepalive ticks never outpace the interval by more than one tick: by any
/// time, at most one tick more than the whole periods elapsed has fired.
pub proof fn lemma_ticks_bounded(t: Ticker)
    requires
        t.wf(),
        t.period_ms > 0,
    ensures
        t.fired <= t.latest_ms / t.period_ms + 1,
{
    if t.fired > 0 {
        let k = (t.fired - 1) as int;
        let p = t.period_ms as int;
        let l = t.latest_ms as int;
        assert(k <= l / p) by (nonlinear_arith)
            requires
                k * p <= l,
                p > 0,
                k >= 0,
        ;
    }
}

} // verus!
