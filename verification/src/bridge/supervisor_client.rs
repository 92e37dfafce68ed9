//! Decisions of the background supervisor driver.
//!
//! The driver connects to the control socket (which triggers launchd socket
//! activation), performs the `hello` handshake, then serves `start`/`stop`/
//! `status` one at a time while forwarding unsolicited pushes
//! (`core_exited`/`kicked`/`busy`). On a disconnect it reconnects with capped
//! exponential backoff (1s doubling to 30s). A `busy` answer pauses
//! reconnection until the user confirms a takeover. Sockets, channels and
//! timers belong to the caller; this module decides what they do.

use vstd::prelude::*;
use crate::bridge::proto::{Cmd, CoreState, Event, PROTO_VERSION};
use crate::text::{append_str, string_of};

verus! {

/// Default control socket path, overridden by `ET_SUPERVISOR_SOCKET`.
pub const DEFAULT_SOCKET_PATH: &'static str = "/var/run/easytier.supervisor.sock";

/// Seconds a command waits for its reply.
pub const REQUEST_TIMEOUT_SECS: u64 = 20;

/// Reply payload for a successful `start` (or idempotent re-`start`).
#[derive(Debug, Clone, Copy, PartialEq, Eq, Structural)]
pub struct StartInfo {
    pub pid: i32,
    pub rpc_port: u16,
}

/// Reply payload for `status`.
#[derive(Debug, Clone, Copy, PartialEq, Eq, Structural)]
pub struct StatusInfo {
    pub core: CoreState,
    pub pid: Option<i32>,
    pub rpc_port: Option<u16>,
}

/// Events surfaced from the driver to the app.
#[derive(Debug, Clone, PartialEq, Eq)]
#[allow(inconsistent_fields)]
pub enum SupervisorEvent {
    Connected { version: String, core: CoreState, rpc_port: Option<u16> },
    Disconnected,
    CoreStarted { pid: i32, rpc_port: u16 },
    CoreStopped { reason: String },
    CoreExited { code: Option<i32>, signal: Option<i32> },
    Kicked,
    Busy { owner: bool },
    Error { code: String, msg: String },
}

/// Driver configuration (backoff in milliseconds).
#[derive(Debug, Clone, PartialEq, Eq)]
pub struct SupervisorConfig {
    pub socket_path: String,
    pub takeover: bool,
    pub initial_backoff_ms: u64,
    pub max_backoff_ms: u64,
}

impl SupervisorConfig {
    /// The default driver settings for `socket_path`: no takeover, backoff
    /// from 1 s up to 30 s.
    pub fn with_socket(socket_path: String) -> (c: SupervisorConfig)
        ensures
            c.socket_path == socket_path,
            !c.takeover,
            c.initial_backoff_ms == 1000,
            c.max_backoff_ms == 30000,
    {
        SupervisorConfig { socket_path, takeover: false, initial_backoff_ms: 1000, max_backoff_ms: 30000 }
    }
}

/// A command waiting for its reply (the caller keeps the reply channel).
#[derive(Debug, Clone, Copy, PartialEq, Eq, Structural)]
pub enum Request {
    Start,
    Stop,
    Status,
}

/// The wire command of a request.
pub open spec fn request_cmd(r: Request) -> Cmd {
    match r {
        Request::Start => Cmd::Start,
        Request::Stop => Cmd::Stop,
        Request::Status => Cmd::Status,
    }
}

impl Request {
    /// The wire command for this request.
    pub fn cmd(&self) -> (c: Cmd)
        ensures
            c == request_cmd(*self),
    {
        match self {
            Request::Start => Cmd::Start,
            Request::Stop => Cmd::Stop,
            Request::Status => Cmd::Status,
        }
    }
}

/// The `hello` a connect attempt sends.
pub fn hello_cmd(takeover: bool) -> (c: Cmd)
    ensures
        c == (Cmd::Hello { proto: PROTO_VERSION, takeover }),
{
    Cmd::Hello { proto: PROTO_VERSION, takeover }
}

/// Admit a new request for sending: only one may be in flight, since replies
/// carry no request id.
pub fn admit_request(pending: &Option<Request>, req: Request) -> (r: Result<Cmd, String>)
    ensures
        pending is Some ==> (r matches Err(m) && m@ == "another request is already in flight"@),
        pending is None ==> (r matches Ok(c) && c == request_cmd(req)),
{
    if pending.is_some() {
        Err("another request is already in flight".to_owned())
    } else {
        Ok(req.cmd())
    }
}

/// Why sending a command failed: `write failed: <err>`, or `flush failed:
/// <err>` when the write went through but the flush did not. The request is
/// answered with it and the session ends.
pub fn send_failure(flush: bool, err: &str) -> (m: String)
    ensures
        m@ == (if flush {
            "flush failed: "@
        } else {
            "write failed: "@
        }) + err@,
{
    let mut v: Vec<char> = Vec::new();
    if flush {
        append_str(&mut v, "flush failed: ");
    } else {
        append_str(&mut v, "write failed: ");
    }
    append_str(&mut v, err);
    string_of(&v)
}

/// How a pending request is answered.
#[derive(Debug, Clone, PartialEq, Eq)]
pub enum Reply {
    Started(StartInfo),
    Stopped,
    Status(StatusInfo),
    Failed(String),
}

/// The failure reply with message `m`.
pub open spec fn failed_with(r: Option<Reply>, m: Seq<char>) -> bool {
    r matches Some(Reply::Failed(s)) && s@ == m
}

/// Route one decoded event: pushes are forwarded to the app; a reply answers
/// (and clears) the request in flight. `core_started`/`core_stopped` are both
/// forwarded and, when they answer a pending request, complete it. Returns the
/// event to forward and the answer for the request that was pending.
pub fn dispatch_event(ev: Event, pending: &mut Option<Request>) -> (r: (Option<SupervisorEvent>, Option<Reply>))
    ensures
        match ev {
            Event::CoreExited { code, signal } => r.0 == Some(SupervisorEvent::CoreExited { code, signal }) && r.1 is None && *final(pending) == *old(pending),
            Event::Kicked => r.0 == Some(SupervisorEvent::Kicked) && r.1 is None && *final(pending) == *old(pending),
            Event::Busy { owner } => r.0 == Some(SupervisorEvent::Busy { owner }) && r.1 is None && *final(pending) == *old(pending),
            Event::CoreStarted { pid, rpc_port } => r.0 == Some(SupervisorEvent::CoreStarted { pid, rpc_port })
                && *final(pending) is None
                && match *old(pending) {
                    Some(Request::Start) => r.1 == Some(Reply::Started(StartInfo { pid, rpc_port })),
                    Some(_) => failed_with(r.1, "unexpected core_started reply"@),
                    None => r.1 is None,
                },
            Event::CoreStopped { reason } => (r.0 matches Some(SupervisorEvent::CoreStopped { reason: fr }) && fr@ == reason@)
                && *final(pending) is None
                && match *old(pending) {
                    Some(Request::Stop) => r.1 == Some(Reply::Stopped),
                    Some(_) => failed_with(r.1, "unexpected core_stopped reply"@),
                    None => r.1 is None,
                },
            Event::Status { core, pid, rpc_port } => r.0 is None && *final(pending) is None
                && match *old(pending) {
                    Some(Request::Status) => r.1 == Some(Reply::Status(StatusInfo { core, pid, rpc_port })),
                    Some(_) => failed_with(r.1, "unexpected status reply"@),
                    None => r.1 is None,
                },
            Event::Error { code, msg } => *final(pending) is None && match *old(pending) {
                Some(_) => r.0 is None && failed_with(r.1, msg@),
                None => r.1 is None && (r.0 matches Some(SupervisorEvent::Error { code: c, msg: m }) && c@ == code@ && m@ == msg@),
            },
            Event::Hello { .. } => r.0 is None && r.1 is None && *final(pending) == *old(pending),
            Event::Unknown => r.0 is None && r.1 is None && *final(pending) == *old(pending),
        },
{
    match ev {
        Event::CoreExited { code, signal } => (Some(SupervisorEvent::CoreExited { code, signal }), None),
        Event::Kicked => (Some(SupervisorEvent::Kicked), None),
        Event::Busy { owner } => (Some(SupervisorEvent::Busy { owner }), None),
        Event::CoreStarted { pid, rpc_port } => {
            let reply = match pending.take() {
                Some(Request::Start) => Some(Reply::Started(StartInfo { pid, rpc_port })),
                Some(_) => Some(Reply::Failed("unexpected core_started reply".to_owned())),
                None => None,
            };
            (Some(SupervisorEvent::CoreStarted { pid, rpc_port }), reply)
        },
        Event::CoreStopped { reason } => {
            let reply = match pending.take() {
                Some(Request::Stop) => Some(Reply::Stopped),
                Some(_) => Some(Reply::Failed("unexpected core_stopped reply".to_owned())),
                None => None,
            };
            (Some(SupervisorEvent::CoreStopped { reason }), reply)
        },
        Event::Status { core, pid, rpc_port } => {
            let reply = match pending.take() {
                Some(Request::Status) => Some(Reply::Status(StatusInfo { core, pid, rpc_port })),
                Some(_) => Some(Reply::Failed("unexpected status reply".to_owned())),
                None => None,
            };
            (None, reply)
        },
        Event::Error { code, msg } => match pending.take() {
            Some(_) => (None, Some(Reply::Failed(msg))),
            None => (Some(SupervisorEvent::Error { code, msg }), None),
        },
        Event::Hello { .. } => (None, None),
        Event::Unknown => (None, None),
    }
}

/// How a connect attempt ended.
#[derive(Debug, Clone, Copy, PartialEq, Eq, Structural)]
pub enum Handshake {
    /// `hello` answered: the session is up.
    Connected,
    /// Another owner holds the lease: stop auto-reconnecting.
    Busy,
    /// Anything else: transient, back off and retry.
    Failed,
}

/// Judge the supervisor's answer to our `hello` (`None` when the connection
/// closed or the line did not decode). Returns the event to forward and the
/// outcome.
pub fn handshake_outcome(reply: Option<Event>) -> (r: (Option<SupervisorEvent>, Handshake))
    ensures
        match reply {
            Some(Event::Hello { version, core, rpc_port, .. }) => r.1 == Handshake::Connected
                && (r.0 matches Some(SupervisorEvent::Connected { version: v, core: c, rpc_port: p }) && v@ == version@ && c == core && p == rpc_port),
            Some(Event::Busy { owner }) => r.1 == Handshake::Busy && r.0 == Some(SupervisorEvent::Busy { owner }),
            Some(Event::Error { code, msg }) => r.1 == Handshake::Failed
                && (r.0 matches Some(SupervisorEvent::Error { code: c, msg: m }) && c@ == code@ && m@ == msg@),
            _ => r.1 == Handshake::Failed && r.0 is None,
        },
{
    match reply {
        Some(Event::Hello { version, core, rpc_port, .. }) => (Some(SupervisorEvent::Connected { version, core, rpc_port }), Handshake::Connected),
        Some(Event::Busy { owner }) => (Some(SupervisorEvent::Busy { owner }), Handshake::Busy),
        Some(Event::Error { code, msg }) => (Some(SupervisorEvent::Error { code, msg }), Handshake::Failed),
        _ => (None, Handshake::Failed),
    }
}

/// What the driver does after a connect attempt.
#[derive(Debug, Clone, Copy, PartialEq, Eq, Structural)]
pub enum NextStep {
    /// The handshake succeeded: serve the session.
    RunSession,
    /// Another owner holds the lease: make no attempt until the user
    /// confirms a takeover (or the driver shuts down).
    AwaitTakeover,
    /// A transient failure: wait out the backoff, then try again.
    BackOff,
}

/// The step a handshake outcome leads to.
pub open spec fn step_after(h: Handshake) -> NextStep {
    match h {
        Handshake::Connected => NextStep::RunSession,
        Handshake::Busy => NextStep::AwaitTakeover,
        Handshake::Failed => NextStep::BackOff,
    }
}

/// The driver after starting an attempt, and the takeover flag it sends.
pub open spec fn begin_of(d: Driver) -> (Driver, bool) {
    (Driver { next_takeover: false, ..d }, d.next_takeover)
}

/// The driver after the user confirmed a takeover.
pub open spec fn confirmed_of(d: Driver) -> Driver {
    Driver { next_takeover: true, ..d }
}

/// The next backoff: double it, capped at `max`.
pub open spec fn next_backoff(b: int, max: int) -> int {
    if 2 * b < max {
        2 * b
    } else {
        max
    }
}

/// The backoff after `k` consecutive failed waits starting from `b`.
pub open spec fn backoff_after(b: int, max: int, k: nat) -> int
    decreases k,
{
    if k == 0 {
        b
    } else {
        next_backoff(backoff_after(b, max, (k - 1) as nat), max)
    }
}

/// Reconnect state of the driver across attempts.
#[derive(Debug, Clone, Copy, PartialEq, Eq, Structural)]
pub struct Driver {
    /// How long the next wait lasts.
    pub backoff_ms: u64,
    /// Whether the next attempt asks to take over an existing lease.
    pub next_takeover: bool,
    /// Whether a session is up (what `is_connected` reports).
    pub session_up: bool,
}

impl Driver {
    /// Fresh driver state: the initial backoff, and takeover only if the
    /// config asks for it.
    pub fn new(config: &SupervisorConfig) -> (d: Driver)
        ensures
            d.backoff_ms == config.initial_backoff_ms,
            d.next_takeover == config.takeover,
            !d.session_up,
    {
        Driver { backoff_ms: config.initial_backoff_ms, next_takeover: config.takeover, session_up: false }
    }

    /// Start a connect attempt: returns the takeover flag to send and clears
    /// it, so a takeover is requested by one attempt only.
    pub fn begin_attempt(&mut self) -> (takeover: bool)
        ensures
            (*final(self), takeover) == begin_of(*old(self)),
            takeover == old(self).next_takeover,
            !final(self).next_takeover,
            final(self).backoff_ms == old(self).backoff_ms,
            final(self).session_up == old(self).session_up,
    {
        let t = self.next_takeover;
        self.next_takeover = false;
        t
    }

    /// A session came up: the backoff starts over.
    pub fn connected(&mut self, config: &SupervisorConfig)
        ensures
            final(self).backoff_ms == config.initial_backoff_ms,
            final(self).next_takeover == old(self).next_takeover,
            final(self).session_up,
    {
        self.backoff_ms = config.initial_backoff_ms;
        self.session_up = true;
    }

    /// The session ended (peer closed, I/O failed, or shutdown): it is down,
    /// and the app is told exactly once, with the returned `Disconnected`.
    /// The backoff stays where `connected` put it.
    pub fn session_ended(&mut self) -> (ev: SupervisorEvent)
        ensures
            ev == SupervisorEvent::Disconnected,
            !final(self).session_up,
            final(self).backoff_ms == old(self).backoff_ms,
            final(self).next_takeover == old(self).next_takeover,
    {
        self.session_up = false;
        SupervisorEvent::Disconnected
    }

    /// While paused on `busy`, the user confirmed a takeover: the next
    /// attempt asks for it, immediately.
    pub fn takeover_confirmed(&mut self)
        ensures
            *final(self) == confirmed_of(*old(self)),
            final(self).next_takeover,
            final(self).backoff_ms == old(self).backoff_ms,
            final(self).session_up == old(self).session_up,
    {
        self.next_takeover = true;
    }

    /// A connect attempt ended with `outcome`. On success the session is up
    /// and the backoff starts over; on `busy` the driver pauses, making no
    /// attempt until a takeover is confirmed; on anything else it backs off.
    pub fn attempt_ended(&mut self, config: &SupervisorConfig, outcome: Handshake) -> (next: NextStep)
        ensures
            next == step_after(outcome),
            outcome == Handshake::Connected ==> *final(self) == (Driver {
                backoff_ms: config.initial_backoff_ms,
                session_up: true,
                ..*old(self)
            }),
            outcome != Handshake::Connected ==> *final(self) == *old(self),
    {
        match outcome {
            Handshake::Connected => {
                self.connected(config);
                NextStep::RunSession
            },
            Handshake::Busy => NextStep::AwaitTakeover,
            Handshake::Failed => NextStep::BackOff,
        }
    }

    /// A backoff wait ended: double the next one, capped at the maximum.
    pub fn waited(&mut self, config: &SupervisorConfig)
        ensures
            final(self).backoff_ms == next_backoff(old(self).backoff_ms as int, config.max_backoff_ms as int),
            final(self).next_takeover == old(self).next_takeover,
            final(self).session_up == old(self).session_up,
    {
        let doubled: u64 = if self.backoff_ms > u64::MAX / 2 {
            u64::MAX
        } else {
            self.backoff_ms * 2
        };
        self.backoff_ms = if doubled < config.max_backoff_ms {
            doubled
        } else {
            config.max_backoff_ms
        };
    }
}

/// Capped exponential backoff: after `k` consecutive failed waits from the
/// initial backoff `b <= max`, the wait is `min(b * 2^k, max)`; it never
/// exceeds the cap.
pub proof fn law_backoff_is_capped_doubling(b: int, max: int, k: nat)
    requires
        0 <= b <= max,
    ensures
        backoff_after(b, max, k) == if b * vstd::arithmetic::power2::pow2(k) < max {
            b * vstd::arithmetic::power2::pow2(k)
        } else {
            max
        },
        backoff_after(b, max, k) <= max,
    decreases k,
{
    vstd::arithmetic::power2::lemma_pow2_pos(k);
    if k == 0 {
        vstd::arithmetic::power2::lemma2_to64();
    } else {
        law_backoff_is_capped_doubling(b, max, (k - 1) as nat);
        vstd::arithmetic::power2::lemma_pow2_unfold(k);
        let p = vstd::arithmetic::power2::pow2((k - 1) as nat);
        assert(b * vstd::arithmetic::power2::pow2(k) == 2 * (b * p)) by (nonlinear_arith)
            requires
                vstd::arithmetic::power2::pow2(k) == 2 * p,
        ;
    }
}

/// A session's end after it came up: the driver reports it down, and the
/// next reconnect wait is the initial backoff, doubling from there up to the
/// cap as further attempts fail.
pub proof fn law_session_end_then_backoff(d: Driver, config: SupervisorConfig, k: nat)
    requires
        0 <= config.initial_backoff_ms <= config.max_backoff_ms,
    ensures
        ({
            let up = Driver { backoff_ms: config.initial_backoff_ms, session_up: true, ..d };
            let down = Driver { session_up: false, ..up };
            &&& !down.session_up
            &&& down.backoff_ms == config.initial_backoff_ms
            &&& backoff_after(down.backoff_ms as int, config.max_backoff_ms as int, k) <= config.max_backoff_ms
        }),
{
    law_backoff_is_capped_doubling(config.initial_backoff_ms as int, config.max_backoff_ms as int, k);
}

/// A `busy` answer pauses the driver: the outcome leads to awaiting a
/// takeover, not to a backoff or a retry. Once the user confirms, the very
/// next attempt asks for the takeover, and only that one: the attempt after
/// it asks for none. A driver configured without takeover never asks for one
/// on its first attempt.
pub proof fn law_busy_pauses_until_takeover(d: Driver, config: SupervisorConfig)
    ensures
        step_after(Handshake::Busy) == NextStep::AwaitTakeover,
        step_after(Handshake::Failed) == NextStep::BackOff,
        begin_of(confirmed_of(d)).1,
        !begin_of(begin_of(confirmed_of(d)).0).1,
        !config.takeover ==> !begin_of(Driver {
            backoff_ms: config.initial_backoff_ms,
            next_takeover: config.takeover,
            session_up: false,
        }).1,
{
}

} // verus!
