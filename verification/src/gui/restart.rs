//! App-level policy around the supervisor: auto-restart after an unexpected
//! core exit (capped consecutive failures), the status shown to the user, and
//! the launch flags.

use vstd::prelude::*;
use crate::text::{chars_eq, chars_of, strs_view};
use vstd::arithmetic::power2::{lemma2_to64, lemma_pow2_unfold, pow2};

verus! {

/// Consecutive failed restarts before giving up.
pub const MAX_AUTO_RESTART: u32 = 3;

/// What to do after an unexpected `core_exited`.
#[derive(Debug, Clone, Copy, PartialEq, Eq, Structural)]
pub enum RestartPlan {
    /// Nothing was running: nothing to restore.
    Nothing,
    /// Auto-restart is off: tell the user it was skipped.
    Skipped,
    /// The budget of consecutive failures is spent: tell the user.
    GiveUp,
    /// Wait `delay_secs`, then try restart number `attempt`.
    Attempt { attempt: u32, delay_secs: u64 },
}

/// The wait before the restart that follows `failures` consecutive failed
/// ones: exponential back-off, `2^failures` seconds (1, 2, 4, ...).
pub open spec fn restart_delay(failures: u32) -> int {
    pow2(failures as nat) as int
}

/// The restart rule: nothing when nothing ran; skip when disabled; otherwise
/// attempt `failures + 1` after [`restart_delay`] seconds, unless that
/// exceeds the cap.
pub open spec fn restart_plan_of(running: nat, auto_restart: bool, failures: u32) -> RestartPlan {
    if running == 0 {
        RestartPlan::Nothing
    } else if !auto_restart {
        RestartPlan::Skipped
    } else if failures as int + 1 > MAX_AUTO_RESTART as int {
        RestartPlan::GiveUp
    } else {
        RestartPlan::Attempt { attempt: (failures + 1) as u32, delay_secs: restart_delay(failures) as u64 }
    }
}

/// Decide the next restart step given how many profiles were running, the
/// setting, and the count of consecutive failed restarts.
pub fn plan_restart(running: usize, auto_restart: bool, failures: u32) -> (p: RestartPlan)
    ensures
        p == restart_plan_of(running as nat, auto_restart, failures),
{
    if running == 0 {
        return RestartPlan::Nothing;
    }
    if !auto_restart {
        return RestartPlan::Skipped;
    }
    if failures >= MAX_AUTO_RESTART {
        return RestartPlan::GiveUp;
    }
    let mut delay: u64 = 1;
    let mut i: u32 = 0;
    proof {
        lemma2_to64();
    }
    while i < failures
        invariant
            i <= failures < MAX_AUTO_RESTART,
            delay == pow2(i as nat),
        decreases failures - i,
    {
        proof {
            lemma_pow2_unfold((i + 1) as nat);
            lemma2_to64();
        }
        delay = delay * 2;
        i += 1;
    }
    RestartPlan::Attempt { attempt: failures + 1, delay_secs: delay }
}

/// The consecutive-failure count after an attempt: reset on success, one
/// more on failure.
pub open spec fn failures_after(failures: u32, ok: bool) -> u32 {
    if ok {
        0
    } else if failures == u32::MAX {
        u32::MAX
    } else {
        (failures + 1) as u32
    }
}

/// Count a restart attempt's outcome (a user-initiated start also resets it).
pub fn record_restart(failures: u32, ok: bool) -> (f: u32)
    ensures
        f == failures_after(failures, ok),
{
    if ok {
        0
    } else {
        failures.saturating_add(1)
    }
}

/// The failure count after `k` failed attempts in a row from `f`.
pub open spec fn after_failures(f: u32, k: nat) -> u32
    decreases k,
{
    if k == 0 {
        f
    } else {
        failures_after(after_failures(f, (k - 1) as nat), false)
    }
}

/// From a clean slate, exactly `MAX_AUTO_RESTART` restarts are attempted in a
/// row while they fail, numbered 1, 2, 3, the wait before each twice the one
/// before (1 s, 2 s, 4 s); then it gives up. A success anywhere starts the
/// count, and the back-off, over.
pub proof fn law_restart_budget(running: nat, k: nat)
    requires
        running > 0,
    ensures
        k < MAX_AUTO_RESTART ==> restart_plan_of(running, true, after_failures(0, k)) == (RestartPlan::Attempt {
            attempt: (k + 1) as u32,
            delay_secs: pow2(k) as u64,
        }),
        k + 1 < MAX_AUTO_RESTART ==> restart_delay(after_failures(0, k + 1)) == 2 * restart_delay(after_failures(0, k)),
        k >= MAX_AUTO_RESTART && k <= u32::MAX ==> restart_plan_of(running, true, after_failures(0, k)) == RestartPlan::GiveUp,
        restart_plan_of(running, true, failures_after(after_failures(0, k), true)) == (RestartPlan::Attempt {
            attempt: 1,
            delay_secs: 1,
        }),
    decreases k,
{
    lemma_after_failures(k);
    lemma_after_failures(k + 1);
    lemma2_to64();
    lemma_pow2_unfold(k + 1);
}

proof fn lemma_after_failures(k: nat)
    ensures
        k <= u32::MAX ==> after_failures(0, k) == k,
    decreases k,
{
    if k > 0 {
        lemma_after_failures((k - 1) as nat);
    }
}

/// What the user sees of the supervisor: connection, core, port, install.
#[derive(Debug, Clone, Copy, PartialEq, Eq, Structural)]
pub struct SupervisorStatus {
    pub connected: bool,
    pub core_running: bool,
    pub rpc_port: Option<u16>,
    pub installed: bool,
}

impl SupervisorStatus {
    /// The status for a driver connection state, the current RPC port (known
    /// exactly while a core runs) and the install check.
    pub fn new(connected: bool, rpc_port: Option<u16>, installed: bool) -> (s: SupervisorStatus)
        ensures
            s.connected == connected,
            s.core_running == rpc_port is Some,
            s.rpc_port == rpc_port,
            s.installed == installed,
    {
        SupervisorStatus { connected, core_running: rpc_port.is_some(), rpc_port, installed }
    }
}

/// The settings page's values.
#[derive(Debug, Clone, Copy, PartialEq, Eq, Structural)]
pub struct Settings {
    pub autostart: bool,
    pub auto_restart: bool,
}

/// Launched with `--hidden` (as a login item): start without showing a
/// window.
pub fn launched_hidden(args: &Vec<String>) -> (h: bool)
    ensures
        h == exists|i: int| 0 <= i < args@.len() && args@[i]@ == "--hidden"@,
{
    let flag = crate::text::chars_of("--hidden");
    let mut i: usize = 0;
    while i < args.len()
        invariant
            i <= args.len(),
            flag@ == "--hidden"@,
            forall|j: int| 0 <= j < i ==> args@[j]@ != "--hidden"@,
        decreases args.len() - i,
    {
        let a = crate::text::chars_of(args[i].as_str());
        if chars_eq(&a, &flag) {
            return true;
        }
        i += 1;
    }
    false
}

/// The running set without `id`, in order.
pub open spec fn without(s: Seq<Seq<char>>, id: Seq<char>) -> Seq<Seq<char>>
    decreases s.len(),
{
    if s.len() == 0 {
        s
    } else {
        without(s.drop_last(), id) + if s.last() == id {
            Seq::<Seq<char>>::empty()
        } else {
            seq![s.last()]
        }
    }
}

proof fn lemma_without_excludes(s: Seq<Seq<char>>, id: Seq<char>)
    ensures
        !without(s, id).contains(id),
    decreases s.len(),
{
    if s.len() > 0 {
        lemma_without_excludes(s.drop_last(), id);
        let w = without(s.drop_last(), id);
        if s.last() != id {
            assert forall|j: int| 0 <= j < w.push(s.last()).len() implies w.push(s.last())[j] != id by {
                if j < w.len() {
                    assert(w.push(s.last())[j] == w[j]);
                }
            }
            assert(w + seq![s.last()] =~= w.push(s.last()));
        } else {
            assert(w + Seq::<Seq<char>>::empty() =~= w);
        }
    }
}

/// Whether `id` is among `running`.
fn is_running(running: &Vec<String>, id: &str) -> (b: bool)
    ensures
        b == strs_view(running@).contains(id@),
{
    let target = chars_of(id);
    let mut i: usize = 0;
    while i < running.len()
        invariant
            i <= running.len(),
            target@ == id@,
            forall|j: int| 0 <= j < i ==> running@[j]@ != id@,
        decreases running.len() - i,
    {
        let c = chars_of(running[i].as_str());
        if chars_eq(&c, &target) {
            assert(strs_view(running@)[i as int] == id@);
            return true;
        }
        i += 1;
    }
    proof {
        assert forall|j: int| 0 <= j < strs_view(running@).len() implies strs_view(running@)[j] != id@ by {
            assert(strs_view(running@)[j] == running@[j]@);
        }
    }
    false
}

/// A profile started: it joins the running set unless already there.
pub fn note_running(running: &mut Vec<String>, id: &str)
    ensures
        strs_view(old(running)@).contains(id@) ==> final(running)@ == old(running)@,
        !strs_view(old(running)@).contains(id@) ==> strs_view(final(running)@) == strs_view(old(running)@).push(id@),
{
    if !is_running(running, id) {
        running.push(id.to_owned());
        proof {
            assert(strs_view(running@) =~= strs_view(old(running)@).push(id@));
        }
    }
}

/// A profile stopped: it leaves the running set. Returns whether nothing
/// runs any more, in which case the caller stops the core so no idle
/// process stays behind.
pub fn forget_running(running: &mut Vec<String>, id: &str) -> (now_empty: bool)
    ensures
        strs_view(final(running)@) == without(strs_view(old(running)@), id@),
        !strs_view(final(running)@).contains(id@),
        now_empty == (final(running)@.len() == 0),
{
    let target = chars_of(id);
    let mut kept: Vec<String> = Vec::new();
    let mut i: usize = 0;
    while i < running.len()
        invariant
            i <= running.len(),
            target@ == id@,
            strs_view(kept@) == without(strs_view(running@).take(i as int), id@),
        decreases running.len() - i,
    {
        let ghost before = strs_view(running@).take(i as int);
        let ghost after = strs_view(running@).take(i + 1);
        assert(after.drop_last() =~= before);
        assert(after.last() == running@[i as int]@);
        let c = chars_of(running[i].as_str());
        if !chars_eq(&c, &target) {
            kept.push(running[i].clone());
        }
        assert(strs_view(kept@) =~= without(after, id@));
        i += 1;
    }
    assert(strs_view(running@).take(running.len() as int) =~= strs_view(running@));
    proof {
        lemma_without_excludes(strs_view(running@), id@);
    }
    *running = kept;
    running.len() == 0
}

} // verus!
