//! Lifecycle hooks: a fixed-path, root-owned user script run at core up/down
//! transitions.
//!
//! The script path derives from config, never from a client, and every run
//! is gated by [`check_hook_security`]. In production the script must be a
//! root:wheel regular file that is owner-executable and not group/world
//! writable; in dev mode ownership relaxes to the supervisor's own euid. The
//! hook sees a scrubbed environment: `PATH`, the event, and for `down` the
//! reason — no client data ever reaches it.

use vstd::prelude::*;
use crate::paths::{join, path_join};
use crate::supervisor::auth::AuthMode;
use crate::supervisor::config::{hooks_dir_of, unit_result_view, Config};
use crate::text::{append_str, dec_nat, push_dec_u64, string_of};

verus! {

/// Minimal PATH handed to hook scripts (the same one the core gets).
pub const HOOK_PATH: &'static str = "/usr/bin:/bin:/usr/sbin:/sbin";

/// Which lifecycle transition a hook fires on.
#[derive(Debug, Clone, Copy, PartialEq, Eq, Structural)]
pub enum HookEvent {
    Up,
    Down,
}

/// `EASYTIER_EVENT` value of an event.
pub open spec fn event_name(e: HookEvent) -> Seq<char> {
    match e {
        HookEvent::Up => "up"@,
        HookEvent::Down => "down"@,
    }
}

/// Script file name of an event inside the hooks directory.
pub open spec fn script_file(e: HookEvent) -> Seq<char> {
    match e {
        HookEvent::Up => "up.sh"@,
        HookEvent::Down => "down.sh"@,
    }
}

impl HookEvent {
    /// `EASYTIER_EVENT` value.
    pub fn as_str(self) -> (s: &'static str)
        ensures
            s@ == event_name(self),
    {
        match self {
            HookEvent::Up => "up",
            HookEvent::Down => "down",
        }
    }

    /// Script filename inside `hooks_dir`.
    pub fn script_name(self) -> (s: &'static str)
        ensures
            s@ == script_file(self),
    {
        match self {
            HookEvent::Up => "up.sh",
            HookEvent::Down => "down.sh",
        }
    }
}

/// Why a `down` hook fired (`EASYTIER_REASON`), in step with the wire reasons.
#[derive(Debug, Clone, Copy, PartialEq, Eq, Structural)]
pub enum HookReason {
    /// Client sent `stop`.
    Requested,
    /// Owner control connection dropped (stop semantics + supervisor exit).
    OwnerDrop,
    /// Core died on its own (crash / external kill).
    CoreExited,
    /// Janitor SIGKILLed a leftover core.
    Janitor,
}

/// `EASYTIER_REASON` value of a reason.
pub open spec fn reason_name(r: HookReason) -> Seq<char> {
    match r {
        HookReason::Requested => "requested"@,
        HookReason::OwnerDrop => "owner_drop"@,
        HookReason::CoreExited => "core_exited"@,
        HookReason::Janitor => "janitor"@,
    }
}

impl HookReason {
    /// `EASYTIER_REASON` value.
    pub fn as_str(self) -> (s: &'static str)
        ensures
            s@ == reason_name(self),
    {
        match self {
            HookReason::Requested => "requested",
            HookReason::OwnerDrop => "owner_drop",
            HookReason::CoreExited => "core_exited",
            HookReason::Janitor => "janitor",
        }
    }
}

/// The file metadata the security gate reads (from `lstat`, so a symlink has
/// `is_file == false`).
#[derive(Debug, Clone, Copy, PartialEq, Eq, Structural)]
pub struct FileFacts {
    pub is_file: bool,
    pub uid: u32,
    pub gid: u32,
    pub mode: u32,
}

/// The security verdict on a hook script: a regular file, not group/world
/// writable, owner-executable; root:wheel in production, the supervisor's
/// euid in dev mode. The first failed requirement names the error.
pub open spec fn hook_verdict(f: FileFacts, auth: AuthMode) -> Result<(), Seq<char>> {
    if !f.is_file {
        Err("hook must be a regular file (symlink or special file rejected)"@)
    } else if f.mode & 0o022u32 != 0 {
        Err("hook must not be group/world writable"@)
    } else if f.mode & 0o100u32 == 0 {
        Err("hook must be executable by its owner"@)
    } else {
        match auth {
            AuthMode::Launchd { .. } => if f.uid != 0 {
                Err("hook must be owned by root, is uid "@ + dec_nat(f.uid as nat))
            } else if f.gid != 0 {
                Err("hook must be group wheel (gid 0), is gid "@ + dec_nat(f.gid as nat))
            } else {
                Ok(())
            },
            AuthMode::Dev { euid } => if f.uid != euid {
                Err("hook (dev mode) must be owned by uid "@ + dec_nat(euid as nat)
                    + ", is uid "@ + dec_nat(f.uid as nat))
            } else {
                Ok(())
            },
        }
    }
}

/// May we execute this hook script?
pub fn check_hook_security(f: &FileFacts, auth: AuthMode) -> (r: Result<(), String>)
    ensures
        unit_result_view(r) == hook_verdict(*f, auth),
{
    if !f.is_file {
        return Err("hook must be a regular file (symlink or special file rejected)".to_owned());
    }
    if f.mode & 0o022u32 != 0 {
        return Err("hook must not be group/world writable".to_owned());
    }
    if f.mode & 0o100u32 == 0 {
        return Err("hook must be executable by its owner".to_owned());
    }
    match auth {
        AuthMode::Launchd { .. } => {
            if f.uid != 0 {
                let mut v: Vec<char> = Vec::new();
                append_str(&mut v, "hook must be owned by root, is uid ");
                push_dec_u64(&mut v, f.uid as u64);
                assert(v@ =~= "hook must be owned by root, is uid "@ + dec_nat(f.uid as nat));
                return Err(string_of(&v));
            }
            if f.gid != 0 {
                let mut v: Vec<char> = Vec::new();
                append_str(&mut v, "hook must be group wheel (gid 0), is gid ");
                push_dec_u64(&mut v, f.gid as u64);
                assert(v@ =~= "hook must be group wheel (gid 0), is gid "@ + dec_nat(f.gid as nat));
                return Err(string_of(&v));
            }
        },
        AuthMode::Dev { euid } => {
            if f.uid != euid {
                let mut v: Vec<char> = Vec::new();
                append_str(&mut v, "hook (dev mode) must be owned by uid ");
                push_dec_u64(&mut v, euid as u64);
                append_str(&mut v, ", is uid ");
                push_dec_u64(&mut v, f.uid as u64);
                assert(v@ =~= "hook (dev mode) must be owned by uid "@ + dec_nat(euid as nat)
                    + ", is uid "@ + dec_nat(f.uid as nat));
                return Err(string_of(&v));
            }
        },
    }
    Ok(())
}

/// Path of the script for `event`: `<hooks_dir>/<script name>`.
pub open spec fn hook_script_of(c: Config, e: HookEvent) -> Seq<char> {
    path_join(hooks_dir_of(c), script_file(e))
}

/// The environment a hook runs with, in order: `PATH`, `EASYTIER_EVENT`, and
/// `EASYTIER_REASON` when a reason is given.
pub open spec fn hook_env_of(e: HookEvent, r: Option<HookReason>) -> Seq<(Seq<char>, Seq<char>)> {
    let base = seq![("PATH"@, HOOK_PATH@), ("EASYTIER_EVENT"@, event_name(e))];
    match r {
        Some(reason) => base.push(("EASYTIER_REASON"@, reason_name(reason))),
        None => base,
    }
}

/// A list of string pairs by their characters.
pub open spec fn pairs_view(v: Seq<(String, String)>) -> Seq<(Seq<char>, Seq<char>)> {
    v.map_values(|p: (String, String)| (p.0@, p.1@))
}

impl Config {
    /// Path of the hook script for `event`.
    pub fn hook_script(&self, event: HookEvent) -> (p: String)
        ensures
            p@ == hook_script_of(*self, event),
    {
        let dir = self.hooks_dir();
        join(dir.as_str(), event.script_name())
    }

    /// Path of the hook output log, `<log_dir>/hooks.log`.
    pub fn hook_log_path(&self) -> (p: String)
        ensures
            p@ == path_join(self.log_dir@, "hooks.log"@),
    {
        join(self.log_dir.as_str(), "hooks.log")
    }
}

/// The scrubbed environment a hook script runs with.
pub fn hook_env(event: HookEvent, reason: Option<HookReason>) -> (env: Vec<(String, String)>)
    ensures
        pairs_view(env@) == hook_env_of(event, reason),
{
    let mut env: Vec<(String, String)> = Vec::new();
    env.push(("PATH".to_owned(), HOOK_PATH.to_owned()));
    env.push(("EASYTIER_EVENT".to_owned(), event.as_str().to_owned()));
    if let Some(r) = reason {
        env.push(("EASYTIER_REASON".to_owned(), r.as_str().to_owned()));
    }
    assert(pairs_view(env@) =~= hook_env_of(event, reason));
    env
}

/// The log line a hook run starts with: `[<secs>] <event> start (reason=<reason>)`,
/// the reason empty when there is none.
pub open spec fn hook_start_line(secs: u64, e: HookEvent, r: Option<HookReason>) -> Seq<char> {
    "["@ + dec_nat(secs as nat) + "] "@ + event_name(e) + " start (reason="@ + match r {
        Some(x) => reason_name(x),
        None => Seq::empty(),
    } + ")"@
}

/// The first line written to `hooks.log` for a hook run.
pub fn hook_start_log(secs: u64, event: HookEvent, reason: Option<HookReason>) -> (line: String)
    ensures
        line@ == hook_start_line(secs, event, reason),
{
    let mut v: Vec<char> = Vec::new();
    append_str(&mut v, "[");
    push_dec_u64(&mut v, secs);
    append_str(&mut v, "] ");
    append_str(&mut v, event.as_str());
    append_str(&mut v, " start (reason=");
    if let Some(r) = reason {
        append_str(&mut v, r.as_str());
    }
    append_str(&mut v, ")");
    assert(v@ =~= hook_start_line(secs, event, reason));
    string_of(&v)
}

/// The hook gate: an accepted script is a regular file, owner-executable,
/// writable by nobody but its owner, and owned by root:wheel in production or
/// by the supervisor's own uid in dev mode. Making a script group- or
/// world-writable always gets it refused; in dev mode its group never matters.
pub proof fn law_hook_gate(f: FileFacts, auth: AuthMode, gid: u32)
    ensures
        hook_verdict(f, auth) is Ok ==> f.is_file && f.mode & 0o022u32 == 0 && f.mode & 0o100u32 != 0
            && match auth {
            AuthMode::Launchd { .. } => f.uid == 0 && f.gid == 0,
            AuthMode::Dev { euid } => f.uid == euid,
        },
        hook_verdict(FileFacts { mode: f.mode | 0o020u32, ..f }, auth) is Err,
        hook_verdict(FileFacts { mode: f.mode | 0o002u32, ..f }, auth) is Err,
        auth is Dev ==> (hook_verdict(FileFacts { gid, ..f }, auth) is Ok <==> hook_verdict(f, auth) is Ok),
{
    let m = f.mode;
    assert((m | 0o020u32) & 0o022u32 != 0) by (bit_vector);
    assert((m | 0o002u32) & 0o022u32 != 0) by (bit_vector);
}

/// A hook that has run `elapsed_ms` has used up its budget of
/// `timeout_secs` seconds: it is killed.
pub fn hook_overdue(elapsed_ms: u64, timeout_secs: u64) -> (b: bool)
    ensures
        b == (elapsed_ms as int >= timeout_secs as int * 1000),
{
    if timeout_secs > u64::MAX / 1000 {
        false
    } else {
        elapsed_ms >= timeout_secs * 1000
    }
}

/// The log line for a hook killed at its timeout:
/// `[<secs>] <event> timed out after <timeout>s, killed`.
pub open spec fn hook_timeout_line(secs: u64, e: HookEvent, timeout_secs: u64) -> Seq<char> {
    "["@ + dec_nat(secs as nat) + "] "@ + event_name(e) + " timed out after "@ + dec_nat(timeout_secs as nat)
        + "s, killed"@
}

/// The line written to `hooks.log` when a hook is killed at its timeout.
pub fn hook_timeout_log(secs: u64, event: HookEvent, timeout_secs: u64) -> (line: String)
    ensures
        line@ == hook_timeout_line(secs, event, timeout_secs),
{
    let mut v: Vec<char> = Vec::new();
    append_str(&mut v, "[");
    push_dec_u64(&mut v, secs);
    append_str(&mut v, "] ");
    append_str(&mut v, event.as_str());
    append_str(&mut v, " timed out after ");
    push_dec_u64(&mut v, timeout_secs);
    append_str(&mut v, "s, killed");
    assert(v@ =~= hook_timeout_line(secs, event, timeout_secs));
    string_of(&v)
}

} // verus!
