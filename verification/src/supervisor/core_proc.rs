//! easytier-core process lifecycle decisions: the tracked core state, the
//! spawn command line, and the stop escalation (SIGTERM, then SIGKILL after a
//! grace period).
//!
//! The caller keeps one monitor per core generation which is the sole reaper
//! and the sole signaller, so no signal can reach a reaped (and possibly
//! reused) pid. `stop` never signals: it only marks `stop_requested` and waits
//! for the monitor to observe the exit.

use vstd::prelude::*;
use crate::paths::{join, path_join};
use crate::supervisor::config::Config;
use crate::text::{append_str, dec_nat, push_dec_u64, string_of};
use crate::supervisor::hooks::pairs_view;

verus! {

/// SIGTERM -> SIGKILL escalation delay, in milliseconds.
pub const TERM_GRACE_MS: u64 = 5000;

/// The monitor's poll cadence, in milliseconds.
pub const POLL_INTERVAL_MS: u64 = 100;

/// The only environment variable the core is started with.
pub const CORE_PATH_ENV: &'static str = "/usr/bin:/bin:/usr/sbin:/sbin";

/// A running core generation.
#[derive(Debug, Clone, Copy, PartialEq, Eq, Structural)]
pub struct Running {
    pub pid: i32,
    pub rpc_port: u16,
    /// Set by `stop` so the monitor escalates and knows this exit was
    /// requested (no `core_exited` push, no crash sweep).
    pub stop_requested: bool,
}

/// Core process state tracked by the supervisor.
#[derive(Debug, Clone, Copy, PartialEq, Eq, Structural)]
pub enum CoreProc {
    Stopped,
    Running(Running),
}

/// How the core process terminated, as reported to the owner.
#[derive(Debug, Clone, Copy, PartialEq, Eq, Structural)]
pub struct ExitInfo {
    pub code: Option<i32>,
    pub signal: Option<i32>,
}

/// The arguments after argv[0] for a core bound to `port`: daemon mode and an
/// RPC portal on loopback. The default portal whitelist is already loopback
/// only, so no whitelist flag is passed.
pub open spec fn core_args_of(port: u16) -> Seq<Seq<char>> {
    seq!["--daemon"@, "--rpc-portal"@, "127.0.0.1:"@ + dec_nat(port as nat)]
}

/// The command-line arguments for a core bound to `port`.
pub fn core_args(port: u16) -> (args: Vec<String>)
    ensures
        args@.map_values(|s: String| s@) == core_args_of(port),
{
    let mut v: Vec<char> = Vec::new();
    append_str(&mut v, "127.0.0.1:");
    push_dec_u64(&mut v, port as u64);
    let portal = string_of(&v);
    let mut args: Vec<String> = Vec::new();
    args.push("--daemon".to_owned());
    args.push("--rpc-portal".to_owned());
    args.push(portal);
    assert(args@.map_values(|s: String| s@) =~= core_args_of(port));
    args
}

/// The core's environment: `PATH` only (no `ET_*` knob leaks in).
pub fn core_env() -> (env: Vec<(String, String)>)
    ensures
        pairs_view(env@) == seq![("PATH"@, CORE_PATH_ENV@)],
{
    let mut env: Vec<(String, String)> = Vec::new();
    env.push(("PATH".to_owned(), CORE_PATH_ENV.to_owned()));
    assert(pairs_view(env@) =~= seq![("PATH"@, CORE_PATH_ENV@)]);
    env
}

impl Config {
    /// Where the core's stdout and stderr are appended: `<log_dir>/core.out.log`.
    pub fn core_log_path(&self) -> (p: String)
        ensures
            p@ == path_join(self.log_dir@, "core.out.log"@),
    {
        join(self.log_dir.as_str(), "core.out.log")
    }
}

/// What the monitor does on one poll.
#[derive(Debug, Clone, Copy, PartialEq, Eq, Structural)]
pub enum MonitorAction {
    /// Nothing to send this round.
    Wait,
    /// Send SIGTERM (first round after a stop request).
    Term,
    /// Send SIGKILL (grace period over).
    Kill,
}

/// Escalation state of one monitor: when SIGTERM's grace runs out, and whether
/// SIGKILL went out.
#[derive(Debug, Clone, Copy, PartialEq, Eq, Structural)]
pub struct Escalation {
    pub term_deadline: Option<u64>,
    pub kill_sent: bool,
}

/// The grace deadline armed by a SIGTERM sent at `now_ms` (saturating).
pub open spec fn grace_deadline(now_ms: u64) -> u64 {
    if now_ms as int + TERM_GRACE_MS as int > u64::MAX as int {
        u64::MAX
    } else {
        (now_ms + TERM_GRACE_MS) as u64
    }
}

/// One monitor poll: the next escalation state and the signal to send.
pub open spec fn escalate(e: Escalation, stop_requested: bool, now_ms: u64) -> (Escalation, MonitorAction) {
    if !stop_requested {
        (e, MonitorAction::Wait)
    } else {
        match e.term_deadline {
            None => (Escalation { term_deadline: Some(grace_deadline(now_ms)), ..e }, MonitorAction::Term),
            Some(d) => if !e.kill_sent && now_ms >= d {
                (Escalation { kill_sent: true, ..e }, MonitorAction::Kill)
            } else {
                (e, MonitorAction::Wait)
            },
        }
    }
}

/// One monitor round given whether the child was just found reaped: a reaped
/// child ends the monitor with no signal and the state untouched; otherwise
/// the escalation step decides.
pub open spec fn monitor_round(e: Escalation, reaped: bool, stop_requested: bool, now_ms: u64) -> (Escalation, Option<MonitorAction>) {
    if reaped {
        (e, None)
    } else {
        let (next, a) = escalate(e, stop_requested, now_ms);
        (next, Some(a))
    }
}

impl Escalation {
    /// No signal sent yet.
    pub fn new() -> (e: Escalation)
        ensures
            e.term_deadline is None,
            !e.kill_sent,
    {
        Escalation { term_deadline: None, kill_sent: false }
    }

    /// One monitor poll at time `now_ms` (the child confirmed un-reaped this
    /// round). Without a stop request nothing is sent. The first round after
    /// a stop request sends SIGTERM and arms the grace deadline; once `now_ms`
    /// reaches it, SIGKILL is sent, exactly once.
    pub fn step(&mut self, stop_requested: bool, now_ms: u64) -> (a: MonitorAction)
        ensures
            (*final(self), a) == escalate(*old(self), stop_requested, now_ms),
            !stop_requested ==> a == MonitorAction::Wait && *final(self) == *old(self),
            stop_requested && old(self).term_deadline is None ==> a == MonitorAction::Term
                && final(self).term_deadline == Some(
                if now_ms as int + TERM_GRACE_MS as int > u64::MAX as int {
                    u64::MAX
                } else {
                    (now_ms + TERM_GRACE_MS) as u64
                },
            ) && final(self).kill_sent == old(self).kill_sent,
            stop_requested && old(self).term_deadline is Some ==> final(self).term_deadline
                == old(self).term_deadline,
            stop_requested && old(self).term_deadline is Some && !old(self).kill_sent && now_ms
                >= old(self).term_deadline.unwrap() ==> a == MonitorAction::Kill && final(self).kill_sent,
            stop_requested && old(self).term_deadline is Some && (old(self).kill_sent || now_ms
                < old(self).term_deadline.unwrap()) ==> a == MonitorAction::Wait && *final(self)
                == *old(self),
    {
        if !stop_requested {
            return MonitorAction::Wait;
        }
        match self.term_deadline {
            None => {
                let deadline = now_ms.saturating_add(TERM_GRACE_MS);
                self.term_deadline = Some(deadline);
                MonitorAction::Term
            },
            Some(deadline) => {
                if !self.kill_sent && now_ms >= deadline {
                    self.kill_sent = true;
                    MonitorAction::Kill
                } else {
                    MonitorAction::Wait
                }
            },
        }
    }
}

impl Escalation {
    /// One monitor round: `reaped` is what the child's last wait reported.
    /// `None` when it was reaped (the monitor stops, nothing is signalled);
    /// otherwise the signal to send this round, as [`Escalation::step`].
    pub fn poll(&mut self, reaped: bool, stop_requested: bool, now_ms: u64) -> (a: Option<MonitorAction>)
        ensures
            (*final(self), a) == monitor_round(*old(self), reaped, stop_requested, now_ms),
    {
        if reaped {
            return None;
        }
        Some(self.step(stop_requested, now_ms))
    }
}

/// The monitor signals only an unreaped child with a stop pending: a reaped
/// child gets nothing and ends the monitor; without a stop request nothing is
/// sent; SIGTERM goes out only while no grace deadline is armed, and once
/// armed the deadline stays, so SIGTERM is sent once; SIGKILL only once the
/// deadline has passed and never a second time.
pub proof fn law_monitor_signals(e: Escalation, reaped: bool, stop_requested: bool, now_ms: u64)
    ensures
        monitor_round(e, true, stop_requested, now_ms) == (e, None::<MonitorAction>),
        monitor_round(e, false, false, now_ms) == (e, Some(MonitorAction::Wait)),
        escalate(e, stop_requested, now_ms).1 == MonitorAction::Term ==> stop_requested && e.term_deadline is None,
        e.term_deadline is Some ==> escalate(e, stop_requested, now_ms).0.term_deadline == e.term_deadline,
        escalate(e, stop_requested, now_ms).1 == MonitorAction::Kill ==> stop_requested && !e.kill_sent && (
        e.term_deadline matches Some(d) && now_ms >= d) && escalate(e, stop_requested, now_ms).0.kill_sent,
        e.kill_sent ==> escalate(e, stop_requested, now_ms).1 != MonitorAction::Kill,
{
}

/// Stop escalation: the first poll after a stop request sends SIGTERM; SIGKILL
/// follows only once the grace period since that SIGTERM has run out, and is
/// sent exactly once.
pub proof fn law_term_then_kill_after_grace(t_term: u64, t_poll: u64, t_later: u64, stop_later: bool)
    ensures
        escalate(Escalation { term_deadline: None, kill_sent: false }, true, t_term).1 == MonitorAction::Term,
        ({
            let armed = escalate(Escalation { term_deadline: None, kill_sent: false }, true, t_term).0;
            let polled = escalate(armed, true, t_poll);
            &&& t_poll < grace_deadline(t_term) ==> polled == (armed, MonitorAction::Wait)
            &&& t_poll >= grace_deadline(t_term) ==> polled.1 == MonitorAction::Kill
                && escalate(polled.0, stop_later, t_later).1 == MonitorAction::Wait
        }),
{
}

/// The stop sequence, round by round, from a fresh monitor of a child that
/// is still alive with a stop requested: the first round sends SIGTERM at
/// `t_term`; any later round before `t_term + TERM_GRACE_MS` sends nothing;
/// the first round at or after it sends SIGKILL; every round after that sends
/// nothing again. (Near the end of the clock the deadline saturates at its
/// maximum; the quiet rounds are stated where it does not.)
pub proof fn law_stop_rounds(t_term: u64, t_poll: u64, t_later: u64)
    ensures
        ({
            let fresh = Escalation { term_deadline: None, kill_sent: false };
            let first = monitor_round(fresh, false, true, t_term);
            let second = monitor_round(first.0, false, true, t_poll);
            &&& first.1 == Some(MonitorAction::Term)
            &&& (t_poll as int) < t_term as int + TERM_GRACE_MS as int && t_term as int + TERM_GRACE_MS as int
                <= u64::MAX ==> second.1 == Some(MonitorAction::Wait)
            &&& (t_poll as int) >= t_term as int + TERM_GRACE_MS as int ==> second.1 == Some(MonitorAction::Kill)
                && monitor_round(second.0, false, true, t_later).1 == Some(MonitorAction::Wait)
        }),
{
}

} // verus!
