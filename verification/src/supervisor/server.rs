//! The supervisor's shared state and the per-connection protocol decisions:
//! the single-owner lease, the mandatory `hello`, the command replies, and the
//! framing of control lines.
//!
//! A connection that passes the peer check must first send a valid `hello`.
//! The first such connection becomes the owner; later ones are answered
//! `busy` unless they ask to take over, which displaces (`kicked`) the old
//! owner without touching the core. When a genuine owner goes away the core
//! is stopped and the supervisor exits; a displaced owner's end does nothing.

use vstd::prelude::*;
use crate::supervisor::core_proc::{CoreProc, ExitInfo, Running};
use crate::supervisor::proto::{Cmd, CoreState, Event, PROTO_VERSION};
use crate::paths::opt_chars;
use vstd::utf8::{decode_utf8, valid_utf8};
use crate::text::{append_str, chars_of, dec_nat, is_blank, push_dec_u64, string_of, skip_ws};

verus! {

/// Hard cap on a single control line, in bytes.
pub const MAX_LINE: usize = 65536;

/// Seconds a connection has to complete `hello`.
pub const HELLO_TIMEOUT_SECS: u64 = 10;

/// Seconds allowed for the courtesy `kicked` write to a displaced owner.
pub const KICK_WRITE_TIMEOUT_SECS: u64 = 1;

/// Lease outcome for a `hello` given whether an owner already exists.
#[derive(Debug, Clone, Copy, PartialEq, Eq, Structural)]
pub enum Lease {
    Accept,
    Busy,
    Takeover,
}

/// The lease rule: no owner => accept; an owner and takeover => take over;
/// an owner and no takeover => busy.
pub open spec fn lease_of(has_owner: bool, takeover: bool) -> Lease {
    if !has_owner {
        Lease::Accept
    } else if takeover {
        Lease::Takeover
    } else {
        Lease::Busy
    }
}

/// Lease outcome for a `hello`.
pub fn lease_decision(has_owner: bool, takeover: bool) -> (l: Lease)
    ensures
        l == lease_of(has_owner, takeover),
{
    match (has_owner, takeover) {
        (false, _) => Lease::Accept,
        (true, true) => Lease::Takeover,
        (true, false) => Lease::Busy,
    }
}

/// The owner connection: its id and whatever the caller keeps with it (the
/// write half, a shutdown handle, the kicked flag).
pub struct Owner<S> {
    pub id: u64,
    pub slot: S,
}

/// What acquiring the lease did.
pub enum Acquired<S> {
    /// Another owner holds the lease: the caller's slot comes back.
    Busy(S),
    /// The caller is the owner; nobody was displaced.
    Accepted,
    /// The caller is the owner; the displaced owner comes back to be kicked.
    TookOver(Owner<S>),
}

/// Everything guarded by the supervisor's state lock.
pub struct State<S> {
    pub owner: Option<Owner<S>>,
    pub core: CoreProc,
}

/// The owner's id, if any.
pub open spec fn owner_id<S>(o: Option<Owner<S>>) -> Option<u64> {
    match o {
        Some(ow) => Some(ow.id),
        None => None,
    }
}

/// The `(state, pid, rpc_port)` a core state is reported as.
pub open spec fn snapshot_of(c: CoreProc) -> (CoreState, Option<i32>, Option<u16>) {
    match c {
        CoreProc::Stopped => (CoreState::Stopped, None, None),
        CoreProc::Running(r) => (CoreState::Running, Some(r.pid), Some(r.rpc_port)),
    }
}

/// The `(pid, rpc_port)` of a running core.
pub open spec fn running_of(c: CoreProc) -> Option<(i32, u16)> {
    match c {
        CoreProc::Running(r) => Some((r.pid, r.rpc_port)),
        CoreProc::Stopped => None,
    }
}

/// The owner after connection `id` asks for the lease.
pub open spec fn after_acquire(owner: Option<u64>, id: u64, takeover: bool) -> Option<u64> {
    match lease_of(owner is Some, takeover) {
        Lease::Busy => owner,
        _ => Some(id),
    }
}

/// The owner after connection `id` ends.
pub open spec fn after_release(owner: Option<u64>, id: u64) -> Option<u64> {
    if owner == Some(id) {
        None
    } else {
        owner
    }
}

/// The core after a stop request.
pub open spec fn after_stop_request(c: CoreProc) -> CoreProc {
    match c {
        CoreProc::Running(r) => CoreProc::Running(Running { stop_requested: true, ..r }),
        CoreProc::Stopped => CoreProc::Stopped,
    }
}

/// The core after generation `pid` is reaped, and whether that exit was
/// expected (stop requested, or not the tracked generation).
pub open spec fn after_exit(c: CoreProc, pid: i32) -> (CoreProc, bool) {
    match c {
        CoreProc::Running(r) => if r.pid == pid {
            (CoreProc::Stopped, r.stop_requested)
        } else {
            (c, true)
        },
        CoreProc::Stopped => (CoreProc::Stopped, true),
    }
}

impl<S> State<S> {
    /// No owner, no core.
    pub fn new() -> (st: State<S>)
        ensures
            st.owner is None,
            st.core == CoreProc::Stopped,
    {
        State { owner: None, core: CoreProc::Stopped }
    }

    /// True while an authenticated owner holds the lease.
    pub fn has_owner(&self) -> (b: bool)
        ensures
            b == self.owner is Some,
    {
        self.owner.is_some()
    }

    /// The core state for `hello`/`status` replies.
    pub fn core_snapshot(&self) -> (s: (CoreState, Option<i32>, Option<u16>))
        ensures
            s == snapshot_of(self.core),
    {
        match &self.core {
            CoreProc::Stopped => (CoreState::Stopped, None, None),
            CoreProc::Running(r) => (CoreState::Running, Some(r.pid), Some(r.rpc_port)),
        }
    }

    /// Acquire the single-owner lease for connection `id` (after a valid
    /// `hello`). The core is never touched.
    pub fn acquire(&mut self, id: u64, slot: S, takeover: bool) -> (r: Acquired<S>)
        ensures
            final(self).core == old(self).core,
            owner_id(final(self).owner) == after_acquire(owner_id(old(self).owner), id, takeover),
            lease_of(old(self).owner is Some, takeover) == Lease::Busy ==> r == Acquired::Busy(slot)
                && final(self).owner == old(self).owner,
            lease_of(old(self).owner is Some, takeover) == Lease::Accept ==> r is Accepted
                && final(self).owner == Some(Owner { id, slot }),
            lease_of(old(self).owner is Some, takeover) == Lease::Takeover ==> r == Acquired::TookOver(
                old(self).owner.unwrap(),
            ) && final(self).owner == Some(Owner { id, slot }),
    {
        match lease_decision(self.owner.is_some(), takeover) {
            Lease::Busy => Acquired::Busy(slot),
            Lease::Accept => {
                self.owner = Some(Owner { id, slot });
                Acquired::Accepted
            },
            Lease::Takeover => {
                let old = self.owner.take();
                self.owner = Some(Owner { id, slot });
                match old {
                    Some(o) => Acquired::TookOver(o),
                    None => Acquired::Accepted,
                }
            },
        }
    }

    /// Connection `id` ended: it stops being the owner if it still is. Returns
    /// whether it was the owner.
    pub fn release(&mut self, id: u64) -> (was_owner: bool)
        ensures
            final(self).core == old(self).core,
            was_owner == (owner_id(old(self).owner) == Some(id)),
            owner_id(final(self).owner) == after_release(owner_id(old(self).owner), id),
            was_owner ==> final(self).owner is None,
            !was_owner ==> final(self).owner == old(self).owner,
    {
        let is_owner = match &self.owner {
            Some(o) => o.id == id,
            None => false,
        };
        if is_owner {
            self.owner = None;
        }
        is_owner
    }

    /// Connection `id` ended. A connection displaced by a takeover (`kicked`)
    /// leaves everything alone; a genuine owner's end releases the lease and
    /// returns true: the caller then stops the core and exits.
    pub fn end_connection(&mut self, id: u64, kicked: bool) -> (teardown: bool)
        ensures
            teardown == !kicked,
            final(self).core == old(self).core,
            kicked ==> final(self).owner == old(self).owner,
            !kicked ==> owner_id(final(self).owner) == after_release(owner_id(old(self).owner), id),
            !kicked ==> (if owner_id(old(self).owner) == Some(id) { final(self).owner is None } else { final(self).owner == old(self).owner }),
    {
        if kicked {
            return false;
        }
        let _ = self.release(id);
        true
    }

    /// The running core's `(pid, rpc_port)`, which `start` returns again
    /// instead of spawning a second core.
    pub fn running_core(&self) -> (r: Option<(i32, u16)>)
        ensures
            r == running_of(self.core),
    {
        match &self.core {
            CoreProc::Running(r) => Some((r.pid, r.rpc_port)),
            CoreProc::Stopped => None,
        }
    }

    /// A core was spawned (under the state lock, so state and reality agree).
    pub fn record_started(&mut self, pid: i32, rpc_port: u16)
        requires
            old(self).core == CoreProc::Stopped,
        ensures
            final(self).core == CoreProc::Running(Running { pid, rpc_port, stop_requested: false }),
            final(self).owner == old(self).owner,
    {
        self.core = CoreProc::Running(Running { pid, rpc_port, stop_requested: false });
    }

    /// Ask the monitor to stop the running core. Returns whether a core was
    /// running; when none is, nothing changes.
    pub fn request_stop(&mut self) -> (was_running: bool)
        ensures
            was_running == old(self).core is Running,
            final(self).owner == old(self).owner,
            final(self).core == after_stop_request(old(self).core),
            match old(self).core {
                CoreProc::Running(r) => final(self).core == CoreProc::Running(
                    Running { stop_requested: true, ..r },
                ),
                CoreProc::Stopped => final(self).core == CoreProc::Stopped,
            },
    {
        match &mut self.core {
            CoreProc::Running(r) => {
                r.stop_requested = true;
                true
            },
            CoreProc::Stopped => false,
        }
    }

    /// Whether the core generation `pid` has a pending stop request (the
    /// monitor's escalation trigger).
    pub fn stop_requested_for(&self, pid: i32) -> (b: bool)
        ensures
            b == (self.core matches CoreProc::Running(r) && r.pid == pid && r.stop_requested),
    {
        match &self.core {
            CoreProc::Running(r) => r.pid == pid && r.stop_requested,
            CoreProc::Stopped => false,
        }
    }

    /// True once no core is running.
    pub fn core_stopped(&self) -> (b: bool)
        ensures
            b == (self.core == CoreProc::Stopped),
    {
        match &self.core {
            CoreProc::Stopped => true,
            CoreProc::Running(_) => false,
        }
    }

    /// The core generation `pid` was reaped. If it is the tracked core, the
    /// state becomes `Stopped`. Returns whether the exit was expected (a stop
    /// was requested, or it is not the tracked generation): only an unexpected
    /// exit is reported to the owner.
    pub fn on_core_exit(&mut self, pid: i32) -> (expected: bool)
        ensures
            final(self).owner == old(self).owner,
            (final(self).core, expected) == after_exit(old(self).core, pid),
            match old(self).core {
                CoreProc::Running(r) => if r.pid == pid {
                    final(self).core == CoreProc::Stopped && expected == r.stop_requested
                } else {
                    final(self).core == old(self).core && expected
                },
                CoreProc::Stopped => final(self).core == CoreProc::Stopped && expected,
            },
    {
        let (same, requested) = match &self.core {
            CoreProc::Running(r) => (r.pid == pid, r.stop_requested),
            CoreProc::Stopped => (false, true),
        };
        if same {
            self.core = CoreProc::Stopped;
            requested
        } else {
            true
        }
    }
}

/// What to do after reading the first line of a connection.
pub enum HelloCheck {
    /// Closed, timed out or unreadable before a `hello`: close silently.
    Close,
    /// Send this error and close.
    Reject(Event),
    /// A valid `hello`: go on to the lease with this takeover flag.
    Proceed { takeover: bool },
}

/// The error event with code `code` and message `msg`.
pub open spec fn is_error(ev: Event, code: Seq<char>, msg: Seq<char>) -> bool {
    ev matches Event::Error { code: c, msg: m } && c@ == code && m@ == msg
}

/// Validate the mandatory first line. `first` is `None` when the peer closed,
/// timed out or sent an unreadable line; otherwise the decoded command or the
/// decoder's message.
pub fn check_hello(first: Option<Result<Cmd, String>>) -> (r: HelloCheck)
    ensures
        match first {
            None => r is Close,
            Some(Ok(Cmd::Hello { proto, takeover })) => if proto == PROTO_VERSION {
                r matches HelloCheck::Proceed { takeover: t } && t == takeover
            } else {
                r matches HelloCheck::Reject(ev) && is_error(ev, "bad_proto"@, "unsupported proto "@ + dec_nat(proto as nat))
            },
            Some(Ok(_)) => r matches HelloCheck::Reject(ev) && is_error(ev, "bad_proto"@, "expected hello first"@),
            Some(Err(e)) => r matches HelloCheck::Reject(ev) && is_error(ev, "bad_proto"@, "malformed hello: "@ + e@),
        },
{
    match first {
        None => HelloCheck::Close,
        Some(Ok(Cmd::Hello { proto, takeover })) => {
            if proto != PROTO_VERSION {
                let mut v: Vec<char> = Vec::new();
                append_str(&mut v, "unsupported proto ");
                push_dec_u64(&mut v, proto as u64);
                assert(v@ =~= "unsupported proto "@ + dec_nat(proto as nat));
                let msg = string_of(&v);
                HelloCheck::Reject(Event::error("bad_proto", msg.as_str()))
            } else {
                HelloCheck::Proceed { takeover }
            }
        },
        Some(Ok(_)) => HelloCheck::Reject(Event::error("bad_proto", "expected hello first")),
        Some(Err(e)) => {
            let mut v: Vec<char> = Vec::new();
            append_str(&mut v, "malformed hello: ");
            append_str(&mut v, e.as_str());
            let msg = string_of(&v);
            HelloCheck::Reject(Event::error("bad_proto", msg.as_str()))
        },
    }
}

/// The `hello` reply: protocol version, supervisor version, core state.
pub fn hello_reply(version: &str, snapshot: (CoreState, Option<i32>, Option<u16>)) -> (ev: Event)
    ensures
        ev matches Event::Hello { proto, version: v, core, rpc_port } && proto == PROTO_VERSION
            && v@ == version@ && core == snapshot.0 && rpc_port == snapshot.2,
{
    Event::Hello { proto: PROTO_VERSION, version: version.to_owned(), core: snapshot.0, rpc_port: snapshot.2 }
}

/// What the owner's command loop does with one line.
pub enum Step {
    /// Blank line: nothing.
    Ignore,
    /// Answer with this event.
    Reply(Event),
    /// Start the core (idempotently), then answer with [`start_reply`].
    StartCore,
    /// Answer with the current [`status_reply`].
    ReportStatus,
    /// Stop the core, then answer with [`stop_reply`].
    StopCore,
}

/// Decide what to do with one owner line: `line` as read, `decoded` the
/// command decoded from it or the decoder's message.
pub fn command_step(line: &str, decoded: Result<Cmd, String>) -> (s: Step)
    ensures
        is_blank(line@) ==> s is Ignore,
        !is_blank(line@) ==> match decoded {
            Ok(Cmd::Hello { .. }) => s matches Step::Reply(ev) && is_error(ev, "bad_proto"@, "duplicate hello"@),
            Ok(Cmd::Start) => s is StartCore,
            Ok(Cmd::Status) => s is ReportStatus,
            Ok(Cmd::Stop) => s is StopCore,
            Err(e) => s matches Step::Reply(ev) && is_error(ev, "bad_request"@, e@),
        },
{
    let v = chars_of(line);
    let i = skip_ws(&v, 0);
    if i == v.len() {
        proof {
            assert forall|k: int| 0 <= k < line@.len() implies crate::text::is_ws(#[trigger] line@[k]) by {
                assert(v@[k] == line@[k]);
            }
        }
        return Step::Ignore;
    }
    proof {
        assert(!crate::text::is_ws(v@[i as int]));
    }
    match decoded {
        Ok(Cmd::Hello { .. }) => Step::Reply(Event::error("bad_proto", "duplicate hello")),
        Ok(Cmd::Start) => Step::StartCore,
        Ok(Cmd::Status) => Step::ReportStatus,
        Ok(Cmd::Stop) => Step::StopCore,
        Err(e) => Step::Reply(Event::error("bad_request", e.as_str())),
    }
}

/// Reply to `start`: the core's pid and port, or a `spawn_failed` error.
pub fn start_reply(started: Result<(i32, u16), String>) -> (ev: Event)
    ensures
        started matches Ok((pid, port)) ==> ev == (Event::CoreStarted { pid, rpc_port: port }),
        started matches Err(msg) ==> is_error(ev, "spawn_failed"@, msg@),
{
    match started {
        Ok((pid, rpc_port)) => Event::CoreStarted { pid, rpc_port },
        Err(msg) => Event::error("spawn_failed", msg.as_str()),
    }
}

/// Reply to `stop`: reason `requested` if a core was running, else
/// `already_stopped`.
pub fn stop_reply(was_running: bool) -> (ev: Event)
    ensures
        ev matches Event::CoreStopped { reason } && reason@ == (if was_running {
            "requested"@
        } else {
            "already_stopped"@
        }),
{
    let reason = if was_running {
        "requested"
    } else {
        "already_stopped"
    };
    Event::CoreStopped { reason: reason.to_owned() }
}

/// Reply to `status`: the current core snapshot.
pub fn status_reply(snapshot: (CoreState, Option<i32>, Option<u16>)) -> (ev: Event)
    ensures
        ev == (Event::Status { core: snapshot.0, pid: snapshot.1, rpc_port: snapshot.2 }),
{
    Event::Status { core: snapshot.0, pid: snapshot.1, rpc_port: snapshot.2 }
}

/// The push for an unexpected core exit.
pub fn exit_report(info: ExitInfo) -> (ev: Event)
    ensures
        ev == (Event::CoreExited { code: info.code, signal: info.signal }),
{
    Event::CoreExited { code: info.code, signal: info.signal }
}


/// Kind of a refused control line; every refusal is invalid data.
#[derive(Debug, Clone, Copy, PartialEq, Eq, Structural)]
pub enum ErrorKind {
    InvalidData,
}

/// Why a control line was refused. The caller closes the connection.
#[derive(Debug, Clone, Copy, PartialEq, Eq, Structural)]
pub enum LineError {
    /// No newline within the limit (or the peer closed mid-line).
    Overlong,
    /// The line is not valid UTF-8.
    NotUtf8,
}

impl LineError {
    /// The I/O error kind this refusal is reported as.
    pub fn kind(&self) -> (k: ErrorKind)
        ensures
            k == ErrorKind::InvalidData,
    {
        ErrorKind::InvalidData
    }

    /// Human-readable reason, for the log.
    pub fn message(&self) -> (m: &'static str)
        ensures
            m@ == match *self {
                LineError::Overlong => "control line exceeds limit or missing newline"@,
                LineError::NotUtf8 => "control line is not valid UTF-8"@,
            },
    {
        match self {
            LineError::Overlong => "control line exceeds limit or missing newline",
            LineError::NotUtf8 => "control line is not valid UTF-8",
        }
    }
}

/// `String::from_utf8`: the text of `bytes` if they are valid UTF-8.
/// Claimed: `Some` exactly for valid UTF-8 (Rust's definition, which is
/// vstd's `valid_utf8`), and then the decoded characters.
#[verifier::external_body]
fn utf8_string(bytes: Vec<u8>) -> (r: Option<String>)
    ensures
        r is Some == valid_utf8(bytes@),
        r matches Some(s) ==> s@ == decode_utf8(bytes@),
{
    String::from_utf8(bytes).ok()
}

/// What a chunk read by `take(max).read_until(b'\n')` amounts to: nothing read
/// is end of stream; a chunk not ending in a newline is over the limit; else
/// the line, newline included, if it is UTF-8.
pub open spec fn line_of_chunk(chunk: Seq<u8>) -> Result<Option<Seq<char>>, LineError> {
    if chunk.len() == 0 {
        Ok(None)
    } else if chunk.last() != 10u8 {
        Err(LineError::Overlong)
    } else if !valid_utf8(chunk) {
        Err(LineError::NotUtf8)
    } else {
        Ok(Some(decode_utf8(chunk)))
    }
}

/// A line result by its characters.
pub open spec fn line_view(r: Result<Option<String>, LineError>) -> Result<Option<Seq<char>>, LineError> {
    match r {
        Ok(o) => Ok(opt_chars(o)),
        Err(e) => Err(e),
    }
}

/// Judge one chunk read with a limit (see [`line_of_chunk`]).
pub fn finish_line(chunk: Vec<u8>) -> (r: Result<Option<String>, LineError>)
    ensures
        line_view(r) == line_of_chunk(chunk@),
{
    if chunk.len() == 0 {
        return Ok(None);
    }
    if chunk[chunk.len() - 1] != 10u8 {
        return Err(LineError::Overlong);
    }
    match utf8_string(chunk) {
        Some(s) => Ok(Some(s)),
        None => Err(LineError::NotUtf8),
    }
}

/// Index of the first newline in `s`, or `s.len()`.
pub open spec fn first_newline(s: Seq<u8>) -> int
    decreases s.len(),
{
    if s.len() == 0 {
        0
    } else if s[0] == 10u8 {
        0
    } else {
        1 + first_newline(s.drop_first())
    }
}

/// The bytes `take(max).read_until(b'\n')` consumes from `rem`: up to and
/// including the first newline among the first `max` bytes, else all of them.
pub open spec fn line_chunk(rem: Seq<u8>, max: nat) -> Seq<u8> {
    let r = if max < rem.len() {
        rem.take(max as int)
    } else {
        rem
    };
    let k = first_newline(r);
    if k < r.len() {
        r.take(k + 1)
    } else {
        r
    }
}

/// A buffered byte source: the bytes not yet consumed.
pub struct ByteReader {
    data: Vec<u8>,
    pos: usize,
}

impl ByteReader {
    #[verifier::type_invariant]
    spec fn inv(&self) -> bool {
        self.pos <= self.data.len()
    }

    /// The bytes still to be read.
    pub closed spec fn remaining(&self) -> Seq<u8> {
        self.data@.skip(self.pos as int)
    }

    /// A reader over `data`.
    pub fn new(data: Vec<u8>) -> (r: ByteReader)
        ensures
            r.remaining() == data@,
    {
        let r = ByteReader { data, pos: 0 };
        assert(r.data@.skip(0) =~= r.data@);
        r
    }
}

proof fn lemma_first_newline(s: Seq<u8>, i: int)
    requires
        0 <= i <= s.len(),
        forall|j: int| 0 <= j < i ==> s[j] != 10u8,
        i == s.len() || s[i] == 10u8,
    ensures
        first_newline(s) == i,
    decreases i,
{
    if i > 0 {
        lemma_first_newline(s.drop_first(), i - 1);
    }
}

/// The control-line limit: one read never consumes more than `max` bytes; a
/// line whose newline does not come within the first `max` bytes (or never
/// comes) is refused as over the limit; a line that ends within the limit
/// comes back whole, newline included, if it is UTF-8.
pub proof fn law_line_limit(rem: Seq<u8>, max: nat, k: int)
    requires
        0 < max,
        0 < rem.len(),
    ensures
        line_chunk(rem, max).len() <= max,
        (forall|j: int| 0 <= j < rem.len() && j < max ==> rem[j] != 10u8) ==> line_of_chunk(
            line_chunk(rem, max),
        ) == Err::<Option<Seq<char>>, LineError>(LineError::Overlong),
        (0 <= k < max && k < rem.len() && rem[k] == 10u8 && (forall|j: int| 0 <= j < k ==> rem[j] != 10u8)
            && valid_utf8(rem.take(k + 1))) ==> line_chunk(rem, max) == rem.take(k + 1) && line_of_chunk(
            line_chunk(rem, max),
        ) == Ok::<Option<Seq<char>>, LineError>(Some(decode_utf8(rem.take(k + 1)))),
{
    let r = if max < rem.len() {
        rem.take(max as int)
    } else {
        rem
    };
    lemma_first_newline_bound(r);
    if forall|j: int| 0 <= j < rem.len() && j < max ==> rem[j] != 10u8 {
        assert forall|j: int| 0 <= j < r.len() implies r[j] != 10u8 by {
            assert(r[j] == rem[j]);
        }
        lemma_first_newline(r, r.len() as int);
        assert(line_chunk(rem, max) == r);
        assert(r.last() == r[r.len() - 1]);
    }
    if 0 <= k < max && k < rem.len() && rem[k] == 10u8 && (forall|j: int| 0 <= j < k ==> rem[j] != 10u8) {
        assert forall|j: int| 0 <= j < k implies r[j] != 10u8 by {
            assert(r[j] == rem[j]);
        }
        assert(r[k] == rem[k]);
        lemma_first_newline(r, k);
        assert(r.take(k + 1) =~= rem.take(k + 1));
        assert(rem.take(k + 1).last() == rem[k]);
    }
}

proof fn lemma_first_newline_bound(s: Seq<u8>)
    ensures
        0 <= first_newline(s) <= s.len(),
    decreases s.len(),
{
    if s.len() > 0 && s[0] != 10u8 {
        lemma_first_newline_bound(s.drop_first());
    }
}

/// Read one control line of at most `max` bytes (newline included):
/// `Ok(None)` at end of input, the line otherwise, an error when no newline
/// comes within `max` bytes or the line is not UTF-8.
pub fn read_line_limited(reader: &mut ByteReader, max: usize) -> (r: Result<Option<String>, LineError>)
    ensures
        final(reader).remaining() == old(reader).remaining().skip(
            line_chunk(old(reader).remaining(), max as nat).len() as int,
        ),
        line_view(r) == line_of_chunk(line_chunk(old(reader).remaining(), max as nat)),
{
    proof {
        use_type_invariant(&*reader);
    }
    let ghost rem = reader.remaining();
    let start = reader.pos;
    let avail = reader.data.len() - start;
    let lim = if max < avail {
        max
    } else {
        avail
    };
    let mut i: usize = 0;
    while i < lim && reader.data[start + i] != 10u8
        invariant
            i <= lim <= avail,
            start == reader.pos,
            avail == reader.data.len() - start,
            reader.pos <= reader.data.len(),
            rem == reader.data@.skip(start as int),
            forall|j: int| 0 <= j < i ==> rem[j] != 10u8,
        decreases lim - i,
    {
        i += 1;
    }
    let ghost r = if (max as nat) < rem.len() {
        rem.take(max as int)
    } else {
        rem
    };
    assert(r.len() == lim);
    assert forall|j: int| 0 <= j < i implies r[j] != 10u8 by {
        assert(r[j] == rem[j]);
    }
    if i < lim {
        assert(r[i as int] == rem[i as int]);
    }
    proof {
        lemma_first_newline(r, i as int);
    }
    let n = if i < lim {
        i + 1
    } else {
        i
    };
    let mut chunk: Vec<u8> = Vec::new();
    let mut k: usize = 0;
    while k < n
        invariant
            k <= n <= lim <= avail,
            start == reader.pos,
            avail == reader.data.len() - start,
            rem == reader.data@.skip(start as int),
            chunk@ == rem.take(k as int),
        decreases n - k,
    {
        chunk.push(reader.data[start + k]);
        assert(rem.take(k + 1) =~= rem.take(k as int).push(rem[k as int]));
        k += 1;
    }
    assert(chunk@ =~= line_chunk(rem, max as nat));
    reader.pos = start + n;
    assert(reader.remaining() =~= rem.skip(n as int));
    finish_line(chunk)
}


/// The first authenticated `hello` always gets the lease.
pub proof fn law_first_hello_owns(id: u64, takeover: bool)
    ensures
        after_acquire(None, id, takeover) == Some(id),
{
}

/// While an owner holds the lease, a `hello` without takeover is turned away
/// and the owner keeps it; with takeover the newcomer becomes the owner.
pub proof fn law_busy_unless_takeover(owner: u64, id: u64)
    ensures
        after_acquire(Some(owner), id, false) == Some(owner),
        after_acquire(Some(owner), id, true) == Some(id),
        lease_of(true, false) == Lease::Busy,
{
}

/// A takeover survives the displaced connection's teardown: when the kicked
/// owner's connection ends, the new owner still holds the lease.
pub proof fn law_takeover_survives_old_owner_end(old_owner: u64, new_owner: u64)
    requires
        old_owner != new_owner,
    ensures
        after_release(after_acquire(Some(old_owner), new_owner, true), old_owner) == Some(new_owner),
{
}

/// After the owner's connection ends the lease is free, so the next `hello`
/// is accepted.
pub proof fn law_release_frees_lease(owner: u64, next: u64, takeover: bool)
    ensures
        after_release(Some(owner), owner) is None,
        after_acquire(after_release(Some(owner), owner), next, takeover) == Some(next),
{
}

/// A requested stop ends quietly: once the stopping generation is reaped the
/// core is stopped and the exit counts as expected (no `core_exited` push).
pub proof fn law_requested_stop_is_quiet(r: Running)
    ensures
        after_exit(after_stop_request(CoreProc::Running(r)), r.pid) == (CoreProc::Stopped, true),
{
}

/// An exit nobody asked for is reported exactly once: the first reap of the
/// tracked generation is unexpected and stops the core; a repeat is quiet.
pub proof fn law_unexpected_exit_reported_once(r: Running)
    requires
        !r.stop_requested,
    ensures
        after_exit(CoreProc::Running(r), r.pid) == (CoreProc::Stopped, false),
        after_exit(after_exit(CoreProc::Running(r), r.pid).0, r.pid) == (CoreProc::Stopped, true),
{
}

/// The reap of an older generation leaves the current core alone.
pub proof fn law_stale_exit_ignored(r: Running, stale_pid: i32)
    requires
        stale_pid != r.pid,
    ensures
        after_exit(CoreProc::Running(r), stale_pid) == (CoreProc::Running(r), true),
{
}

/// `start` is idempotent: once a core is recorded as started, a second
/// `start` finds it running and answers with the same pid and port, and
/// `status` reports that same core.
pub proof fn law_start_is_idempotent(pid: i32, rpc_port: u16)
    ensures
        running_of(CoreProc::Running(Running { pid, rpc_port, stop_requested: false })) == Some(
            (pid, rpc_port),
        ),
        snapshot_of(CoreProc::Running(Running { pid, rpc_port, stop_requested: false })) == (
            CoreState::Running,
            Some(pid),
            Some(rpc_port),
        ),
{
}

/// Stopping a stopped core changes nothing.
pub proof fn law_stop_when_stopped_is_noop()
    ensures
        after_stop_request(CoreProc::Stopped) == CoreProc::Stopped,
{
}

} // verus!
