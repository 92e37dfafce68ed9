//! Install-guide helpers: whether the privileged supervisor is installed, and
//! the `osascript` admin command lines that run `install.sh`/`uninstall.sh`
//! behind a single password prompt. The caller checks the files and runs the
//! command.

use vstd::prelude::*;
use crate::text::{append_chars, append_str, chars_of, string_of, trim};

verus! {

/// launchd plist path.
pub const PLIST_PATH: &'static str = "/Library/LaunchDaemons/com.easytier.supervisor.plist";
/// Installed supervisor binary.
pub const SUPERVISOR_DST: &'static str = "/Library/Application Support/EasyTier/bin/easytier-supervisor";
/// Installed core binary.
pub const CORE_DST: &'static str = "/Library/Application Support/EasyTier/bin/easytier-core";

/// Which managed artifacts are present.
#[derive(Debug, Clone, Copy, PartialEq, Eq, Structural)]
pub struct InstallationStatus {
    pub plist_exists: bool,
    pub supervisor_bin_exists: bool,
    pub core_bin_exists: bool,
    /// True only when all three managed artifacts are present.
    pub installed: bool,
}

impl InstallationStatus {
    /// The status for the given presence of the plist and the two binaries.
    pub fn from_presence(plist_exists: bool, supervisor_bin_exists: bool, core_bin_exists: bool) -> (s: InstallationStatus)
        ensures
            s.plist_exists == plist_exists,
            s.supervisor_bin_exists == supervisor_bin_exists,
            s.core_bin_exists == core_bin_exists,
            s.installed == (plist_exists && supervisor_bin_exists && core_bin_exists),
    {
        InstallationStatus {
            plist_exists,
            supervisor_bin_exists,
            core_bin_exists,
            installed: plist_exists && supervisor_bin_exists && core_bin_exists,
        }
    }
}

/// One character inside single quotes: a `'` closes the quote, adds an
/// escaped `'` and reopens (`'\''`); anything else stands for itself.
pub open spec fn sq_esc(c: char) -> Seq<char> {
    if c == '\'' {
        seq!['\'', '\\', '\'', '\'']
    } else {
        seq![c]
    }
}

/// POSIX single-quoting: every `'` becomes `'\''`.
pub open spec fn sq_body(s: Seq<char>) -> Seq<char>
    decreases s.len(),
{
    if s.len() == 0 {
        Seq::empty()
    } else {
        sq_body(s.drop_last()) + sq_esc(s.last())
    }
}

/// `s` single-quoted so it survives `/bin/sh` word splitting.
pub open spec fn shell_quoted(s: Seq<char>) -> Seq<char> {
    seq!['\''] + sq_body(s) + seq!['\'']
}

/// AppleScript string escaping: backslash doubled, double quote
/// backslash-escaped (backslashes first, so an inserted escape is not doubled).
pub open spec fn as_body(s: Seq<char>) -> Seq<char>
    decreases s.len(),
{
    if s.len() == 0 {
        Seq::empty()
    } else {
        as_body(s.drop_last()) + as_esc(s.last())
    }
}

/// One character inside an AppleScript string literal: a backslash or a
/// double quote gets a backslash in front.
pub open spec fn as_esc(c: char) -> Seq<char> {
    if c == '\\' {
        seq!['\\', '\\']
    } else if c == '"' {
        seq!['\\', '"']
    } else {
        seq![c]
    }
}

/// POSIX single-quote a string so it survives `/bin/sh` word splitting inside
/// `do shell script`.
pub fn shell_quote(s: &str) -> (q: String)
    ensures
        q@ == shell_quoted(s@),
{
    let v = chars_of(s);
    let mut out: Vec<char> = Vec::new();
    out.push('\'');
    let mut i: usize = 0;
    while i < v.len()
        invariant
            i <= v.len(),
            v@ == s@,
            out@ == seq!['\''] + sq_body(v@.take(i as int)),
        decreases v.len() - i,
    {
        let c = v[i];
        if c == '\'' {
            out.push('\'');
            out.push('\\');
            out.push('\'');
            out.push('\'');
        } else {
            out.push(c);
        }
        assert(v@.take(i + 1).drop_last() =~= v@.take(i as int));
        assert(out@ =~= seq!['\''] + sq_body(v@.take(i + 1)));
        i += 1;
    }
    out.push('\'');
    assert(v@.take(v.len() as int) =~= v@);
    assert(out@ =~= shell_quoted(s@));
    string_of(&out)
}

/// Escape a command for embedding inside an AppleScript double-quoted string
/// literal.
pub fn applescript_escape(s: &str) -> (e: String)
    ensures
        e@ == as_body(s@),
{
    let v = chars_of(s);
    let mut out: Vec<char> = Vec::new();
    let mut i: usize = 0;
    while i < v.len()
        invariant
            i <= v.len(),
            v@ == s@,
            out@ == as_body(v@.take(i as int)),
        decreases v.len() - i,
    {
        let c = v[i];
        if c == '\\' {
            out.push('\\');
            out.push('\\');
        } else if c == '"' {
            out.push('\\');
            out.push('"');
        } else {
            out.push(c);
        }
        assert(v@.take(i + 1).drop_last() =~= v@.take(i as int));
        assert(out@ =~= as_body(v@.take(i + 1)));
        i += 1;
    }
    assert(v@.take(v.len() as int) =~= v@);
    string_of(&out)
}

/// The shell command that installs: the quoted script, then the quoted
/// binaries and the owner uid as its flags.
pub open spec fn install_line(script: Seq<char>, sup: Seq<char>, core: Seq<char>, uid: u32) -> Seq<char> {
    shell_quoted(script) + " --supervisor-bin "@ + shell_quoted(sup) + " --core-bin "@ + shell_quoted(core)
        + " --owner-uid "@ + crate::text::dec_nat(uid as nat)
}

/// The `install.sh` command line run with administrator privileges.
pub fn install_command(script: &str, supervisor_bin: &str, core_bin: &str, uid: u32) -> (c: String)
    ensures
        c@ == install_line(script@, supervisor_bin@, core_bin@, uid),
{
    let mut out: Vec<char> = Vec::new();
    let a = shell_quote(script);
    append_str(&mut out, a.as_str());
    append_str(&mut out, " --supervisor-bin ");
    let b = shell_quote(supervisor_bin);
    append_str(&mut out, b.as_str());
    append_str(&mut out, " --core-bin ");
    let c = shell_quote(core_bin);
    append_str(&mut out, c.as_str());
    append_str(&mut out, " --owner-uid ");
    crate::text::push_dec_u64(&mut out, uid as u64);
    assert(out@ =~= install_line(script@, supervisor_bin@, core_bin@, uid));
    string_of(&out)
}

/// Which install precondition fails first, as the message shown to the user:
/// the script, then the supervisor binary, then the core binary must exist.
pub open spec fn preflight_verdict(
    script: Seq<char>,
    script_exists: bool,
    sup: Seq<char>,
    sup_exists: bool,
    core: Seq<char>,
    core_exists: bool,
) -> Result<(), Seq<char>> {
    if !script_exists {
        Err("install script not found: "@ + script)
    } else if !sup_exists {
        Err("supervisor binary not found: "@ + sup + " (build it first)"@)
    } else if !core_exists {
        Err("core binary not found: "@ + core + " (build it first)"@)
    } else {
        Ok(())
    }
}

/// Check the install inputs exist before prompting for a password.
pub fn install_preflight(
    script: &str,
    script_exists: bool,
    supervisor_bin: &str,
    supervisor_exists: bool,
    core_bin: &str,
    core_exists: bool,
) -> (r: Result<(), String>)
    ensures
        crate::supervisor::config::unit_result_view(r) == preflight_verdict(
            script@,
            script_exists,
            supervisor_bin@,
            supervisor_exists,
            core_bin@,
            core_exists,
        ),
{
    let mut out: Vec<char> = Vec::new();
    if !script_exists {
        append_str(&mut out, "install script not found: ");
        append_str(&mut out, script);
        return Err(string_of(&out));
    }
    if !supervisor_exists {
        append_str(&mut out, "supervisor binary not found: ");
        append_str(&mut out, supervisor_bin);
        append_str(&mut out, " (build it first)");
        assert(out@ =~= "supervisor binary not found: "@ + supervisor_bin@ + " (build it first)"@);
        return Err(string_of(&out));
    }
    if !core_exists {
        append_str(&mut out, "core binary not found: ");
        append_str(&mut out, core_bin);
        append_str(&mut out, " (build it first)");
        assert(out@ =~= "core binary not found: "@ + core_bin@ + " (build it first)"@);
        return Err(string_of(&out));
    }
    Ok(())
}

/// The uninstall precondition: the script must exist.
pub fn uninstall_preflight(script: &str, script_exists: bool) -> (r: Result<(), String>)
    ensures
        crate::supervisor::config::unit_result_view(r) == if script_exists {
            Ok(())
        } else {
            Err("uninstall script not found: "@ + script@)
        },
{
    if !script_exists {
        let mut out: Vec<char> = Vec::new();
        append_str(&mut out, "uninstall script not found: ");
        append_str(&mut out, script);
        return Err(string_of(&out));
    }
    Ok(())
}

/// The AppleScript that runs `raw_cmd` with administrator privileges.
pub open spec fn admin_script(raw_cmd: Seq<char>) -> Seq<char> {
    "do shell script \""@ + as_body(raw_cmd) + "\" with administrator privileges"@
}

/// The AppleScript passed as one `osascript -e` argument, so no extra shell
/// layer re-parses it.
pub fn osascript_source(raw_cmd: &str) -> (s: String)
    ensures
        s@ == admin_script(raw_cmd@),
{
    let mut out: Vec<char> = Vec::new();
    append_str(&mut out, "do shell script \"");
    let e = applescript_escape(raw_cmd);
    append_str(&mut out, e.as_str());
    append_str(&mut out, "\" with administrator privileges");
    string_of(&out)
}

/// The error for a failed privileged command: its trimmed stderr.
pub fn admin_failure(stderr: &str) -> (m: String)
    ensures
        m@ == "privileged command failed: "@ + trim(stderr@),
{
    let v = chars_of(stderr);
    let a = crate::text::skip_ws(&v, 0);
    assert(v@.skip(0) =~= v@);
    let b = crate::text::trim_end_index(&v, a, v.len());
    assert(v@.skip(a as int) =~= v@.subrange(a as int, v.len() as int));
    let t = crate::text::slice_chars(&v, a, b);
    let mut out: Vec<char> = Vec::new();
    append_str(&mut out, "privileged command failed: ");
    append_chars(&mut out, &t);
    string_of(&out)
}

/// `c` in front of an optional text.
pub open spec fn opt_cons(c: char, o: Option<Seq<char>>) -> Option<Seq<char>> {
    match o {
        Some(t) => Some(seq![c] + t),
        None => None,
    }
}

/// The single word `/bin/sh` reads from `t` when it is made only of
/// single-quoted runs and backslash-escaped characters (`quoted`: inside a
/// single-quoted run). `None` when the text holds anything else outside
/// quotes (which the shell might split or expand) or a quote is left open.
pub open spec fn sh_word(t: Seq<char>, quoted: bool) -> Option<Seq<char>>
    decreases t.len(),
{
    if t.len() == 0 {
        if quoted {
            None
        } else {
            Some(Seq::empty())
        }
    } else if quoted {
        if t[0] == '\'' {
            sh_word(t.skip(1), false)
        } else {
            opt_cons(t[0], sh_word(t.skip(1), true))
        }
    } else if t[0] == '\'' {
        sh_word(t.skip(1), true)
    } else if t[0] == '\\' && t.len() >= 2 {
        opt_cons(t[1], sh_word(t.skip(2), false))
    } else {
        None
    }
}

/// The text an AppleScript string literal with body `t` denotes, read left
/// to right: `\\` is a backslash, `\"` a double quote; an unescaped double
/// quote ends the literal.
pub open spec fn as_literal_value(t: Seq<char>) -> Seq<char>
    decreases t.len(),
{
    if t.len() == 0 || t[0] == '"' {
        Seq::empty()
    } else if t[0] == '\\' && t.len() >= 2 && (t[1] == '\\' || t[1] == '"') {
        seq![t[1]] + as_literal_value(t.skip(2))
    } else {
        seq![t[0]] + as_literal_value(t.skip(1))
    }
}

proof fn lemma_sq_body_front(c: char, r: Seq<char>)
    ensures
        sq_body(seq![c] + r) == sq_esc(c) + sq_body(r),
    decreases r.len(),
{
    if r.len() == 0 {
        assert((seq![c] + r).drop_last() =~= Seq::<char>::empty());
        assert(seq![c] + r =~= seq![c]);
        assert(sq_body(seq![c]) == sq_body(Seq::<char>::empty()) + sq_esc(c));
        assert(sq_body(seq![c] + r) =~= sq_esc(c) + sq_body(r));
    } else {
        lemma_sq_body_front(c, r.drop_last());
        assert((seq![c] + r).drop_last() =~= seq![c] + r.drop_last());
        assert((seq![c] + r).last() == r.last());
        assert(sq_body(seq![c] + r) =~= sq_esc(c) + sq_body(r));
    }
}

proof fn lemma_as_body_front(c: char, r: Seq<char>)
    ensures
        as_body(seq![c] + r) == as_esc(c) + as_body(r),
    decreases r.len(),
{
    if r.len() == 0 {
        assert((seq![c] + r).drop_last() =~= Seq::<char>::empty());
        assert(seq![c] + r =~= seq![c]);
        assert(as_body(seq![c]) == as_body(Seq::<char>::empty()) + as_esc(c));
        assert(as_body(seq![c] + r) =~= as_esc(c) + as_body(r));
    } else {
        lemma_as_body_front(c, r.drop_last());
        assert((seq![c] + r).drop_last() =~= seq![c] + r.drop_last());
        assert((seq![c] + r).last() == r.last());
        assert(as_body(seq![c] + r) =~= as_esc(c) + as_body(r));
    }
}

proof fn lemma_sh_word_quoted_run(s: Seq<char>)
    ensures
        sh_word(sq_body(s) + seq!['\''], true) == Some(s),
    decreases s.len(),
{
    if s.len() == 0 {
        let t = sq_body(s) + seq!['\''];
        assert(t =~= seq!['\'']);
        assert(t.skip(1) =~= Seq::<char>::empty());
        assert(sh_word(t.skip(1), false) == Some(Seq::<char>::empty()));
        assert(sh_word(t, true) == sh_word(t.skip(1), false));
        assert(s =~= Seq::<char>::empty());
    } else {
        let c = s[0];
        let r = s.skip(1);
        assert(s =~= seq![c] + r);
        lemma_sq_body_front(c, r);
        lemma_sh_word_quoted_run(r);
        let tail = sq_body(r) + seq!['\''];
        let t = sq_body(s) + seq!['\''];
        assert(t =~= sq_esc(c) + tail);
        if c == '\'' {
            let u = t.skip(1);
            assert(u =~= seq!['\\', '\''] + (seq!['\''] + tail));
            assert(u.skip(2) =~= seq!['\''] + tail);
            assert((seq!['\''] + tail).skip(1) =~= tail);
            assert((seq!['\''] + tail)[0] == '\'');
            assert(sh_word(seq!['\''] + tail, false) == sh_word(tail, true));
            assert(u[0] == '\\' && u[1] == '\'');
            assert(sh_word(u, false) == opt_cons('\'', sh_word(u.skip(2), false)));
            assert(t[0] == '\'');
            assert(sh_word(t, true) == sh_word(u, false));
        } else {
            assert(t.skip(1) =~= tail);
            assert(t[0] == c);
            assert(sh_word(t, true) == opt_cons(c, sh_word(tail, true)));
        }
        assert(seq![c] + r =~= s);
    }
}

/// Shell quoting is exact: the quoted text is one shell word, made only of
/// single-quoted runs and escaped quotes, and `/bin/sh` reads it back as the
/// input text, whatever characters it holds.
pub proof fn law_shell_quote_reads_back(s: Seq<char>)
    ensures
        sh_word(shell_quoted(s), false) == Some(s),
{
    lemma_sh_word_quoted_run(s);
    let t = shell_quoted(s);
    assert(t.skip(1) =~= sq_body(s) + seq!['\'']);
}

/// AppleScript escaping is exact: the escaped text, read as the body of a
/// double-quoted AppleScript literal, denotes the input text; no quote in
/// it ends the literal early and no backslash is doubled twice.
pub proof fn law_applescript_escape_reads_back(s: Seq<char>)
    ensures
        as_literal_value(as_body(s)) == s,
    decreases s.len(),
{
    if s.len() == 0 {
        assert(as_body(s) =~= Seq::<char>::empty());
    } else {
        let c = s[0];
        let r = s.skip(1);
        assert(s =~= seq![c] + r);
        lemma_as_body_front(c, r);
        law_applescript_escape_reads_back(r);
        let t = as_body(s);
        assert(t =~= as_esc(c) + as_body(r));
        if c == '\\' || c == '"' {
            assert(t.skip(2) =~= as_body(r));
        } else {
            assert(t.skip(1) =~= as_body(r));
        }
        assert(seq![c] + r =~= s);
    }
}

} // verus!
