//! Conflict detection: unmanaged `easytier-core` processes (running from a
//! path other than the managed binary) and a coexisting TUN VPN (mihomo/clash/
//! sing-box) that may own the default route. The caller lists processes as
//! `<pid> <args...>` lines; this module classifies them.

use vstd::prelude::*;
use crate::text::{
    chars_eq, chars_end_with, chars_of, chars_start_with, has_prefix, has_suffix, skip_ws,
    slice_chars, string_of, strs_view, token, token_end, trim, trim_end_index, trim_start,
};

verus! {

/// The supervisor-managed core path; anything else is "unmanaged".
pub const MANAGED_CORE: &'static str = "/Library/Application Support/EasyTier/bin/easytier-core";

/// What the process scan found.
#[derive(Debug, Clone, PartialEq, Eq)]
pub struct Conflicts {
    /// An `easytier-core` is running from a path other than the managed one.
    pub unmanaged_core: bool,
    pub unmanaged_core_cmds: Vec<String>,
    /// A known TUN VPN process is running (may own the default route).
    pub tun_vpn: bool,
    pub tun_vpn_cmds: Vec<String>,
}

impl Default for Conflicts {
    fn default() -> (c: Conflicts)
        ensures
            !c.unmanaged_core,
            c.unmanaged_core_cmds@.len() == 0,
            !c.tun_vpn,
            c.tun_vpn_cmds@.len() == 0,
    {
        Conflicts { unmanaged_core: false, unmanaged_core_cmds: Vec::new(), tun_vpn: false, tun_vpn_cmds: Vec::new() }
    }
}

/// The command line of a `<pid> <args...>` line: leading whitespace dropped,
/// split at the first whitespace, the rest trimmed. `None` without a split.
pub open spec fn line_args(line: Seq<char>) -> Option<Seq<char>> {
    let t = trim_start(line);
    let k = token(t).len();
    if k < t.len() {
        Some(trim(t.skip(k + 1int)))
    } else {
        None
    }
}

/// argv[0] names the core binary. The managed path contains a space, so its
/// first token is never `.../easytier-core`.
pub open spec fn core_argv0(a: Seq<char>) -> bool {
    a == "easytier-core"@ || has_suffix(a, "/easytier-core"@)
}

/// The command line is the managed core: the managed path alone or followed by
/// a space.
pub open spec fn managed_core(args: Seq<char>) -> bool {
    args == MANAGED_CORE@ || has_prefix(args, MANAGED_CORE@.push(' '))
}

/// The part of a path after its last `/` (the whole path without one).
pub open spec fn basename(s: Seq<char>) -> Seq<char>
    decreases s.len(),
{
    if s.len() == 0 {
        s
    } else if s.last() == '/' {
        Seq::empty()
    } else {
        basename(s.drop_last()).push(s.last())
    }
}

/// argv[0]'s file name is a known TUN VPN.
pub open spec fn tun_argv0(a: Seq<char>) -> bool {
    let b = basename(a);
    b == "mihomo"@ || b == "clash"@ || b == "clash-meta"@ || b == "clashx"@ || b == "ClashX"@ || b
        == "sing-box"@ || b == "sing_box"@
}

/// The command lines of unmanaged cores, in line order.
pub open spec fn unmanaged_cmds(lines: Seq<Seq<char>>) -> Seq<Seq<char>>
    decreases lines.len(),
{
    if lines.len() == 0 {
        Seq::empty()
    } else {
        unmanaged_cmds(lines.drop_last()) + match line_args(lines.last()) {
            Some(args) => if core_argv0(token(args)) && !managed_core(args) {
                seq![args]
            } else {
                Seq::empty()
            },
            None => Seq::empty(),
        }
    }
}

/// The command lines of TUN VPNs, in line order.
pub open spec fn tun_cmds(lines: Seq<Seq<char>>) -> Seq<Seq<char>>
    decreases lines.len(),
{
    if lines.len() == 0 {
        Seq::empty()
    } else {
        tun_cmds(lines.drop_last()) + match line_args(lines.last()) {
            Some(args) => if tun_argv0(token(args)) {
                seq![args]
            } else {
                Seq::empty()
            },
            None => Seq::empty(),
        }
    }
}

/// argv[0] names the core binary.
pub fn is_core_argv0(argv0: &str) -> (b: bool)
    ensures
        b == core_argv0(argv0@),
{
    let a = chars_of(argv0);
    let n = chars_of("easytier-core");
    if chars_eq(&a, &n) {
        return true;
    }
    let s = chars_of("/easytier-core");
    chars_end_with(&a, &s)
}

/// The command line is the supervisor-managed core.
pub fn is_managed_core(args: &str) -> (b: bool)
    ensures
        b == managed_core(args@),
{
    let a = chars_of(args);
    let mut m = chars_of(MANAGED_CORE);
    if chars_eq(&a, &m) {
        return true;
    }
    m.push(' ');
    chars_start_with(&a, &m)
}

fn basename_start(v: &Vec<char>) -> (i: usize)
    ensures
        i <= v.len(),
        basename(v@) == v@.skip(i as int),
{
    let mut i = v.len();
    proof {
        assert(v@.take(v.len() as int) =~= v@);
        assert(v@.skip(v.len() as int) =~= Seq::<char>::empty());
        assert(basename(v@) =~= basename(v@.take(v.len() as int)) + v@.skip(v.len() as int));
    }
    while i > 0 && v[i - 1] != '/'
        invariant
            i <= v.len(),
            basename(v@) == basename(v@.take(i as int)) + v@.skip(i as int),
        decreases i,
    {
        proof {
            let t = v@.take(i as int);
            assert(t.drop_last() =~= v@.take(i - 1));
            assert(t.last() == v@[i - 1]);
            assert(basename(t) == basename(v@.take(i - 1)).push(v@[i - 1]));
            assert(basename(v@.take(i - 1)).push(v@[i - 1]) + v@.skip(i as int) =~= basename(
                v@.take(i - 1),
            ) + v@.skip(i - 1));
        }
        i -= 1;
    }
    proof {
        let t = v@.take(i as int);
        if i > 0 {
            assert(t.last() == v@[i - 1]);
        }
        assert(basename(t) =~= Seq::<char>::empty());
        assert(Seq::<char>::empty() + v@.skip(i as int) =~= v@.skip(i as int));
    }
    i
}

/// argv[0]'s file name is a known TUN VPN.
pub fn is_tun_vpn(argv0: &str) -> (b: bool)
    ensures
        b == tun_argv0(argv0@),
{
    let a = chars_of(argv0);
    let i = basename_start(&a);
    let b = slice_chars(&a, i, a.len());
    assert(b@ =~= a@.skip(i as int));
    let r = chars_eq(&b, &chars_of("mihomo")) || chars_eq(&b, &chars_of("clash")) || chars_eq(
        &b,
        &chars_of("clash-meta"),
    ) || chars_eq(&b, &chars_of("clashx")) || chars_eq(&b, &chars_of("ClashX")) || chars_eq(
        &b,
        &chars_of("sing-box"),
    ) || chars_eq(&b, &chars_of("sing_box"));
    r
}

/// The command line of one process line, if it splits.
pub fn process_args(line: &str) -> (r: Option<String>)
    ensures
        match r {
            Some(a) => line_args(line@) == Some(a@),
            None => line_args(line@) is None,
        },
{
    let v = chars_of(line);
    let start = skip_ws(&v, 0);
    assert(v@.skip(0) =~= v@);
    let end = token_end(&v, start);
    let ghost t = v@.skip(start as int);
    assert(v@.subrange(start as int, end as int) =~= token(t));
    if end == v.len() {
        return None;
    }
    let a0 = skip_ws(&v, end + 1);
    assert(t.skip(token(t).len() + 1int) =~= v@.skip(end + 1));
    let a1 = trim_end_index(&v, a0, v.len());
    assert(v@.skip(a0 as int) =~= v@.subrange(a0 as int, v.len() as int));
    let args = slice_chars(&v, a0, a1);
    Some(string_of(&args))
}

/// The first whitespace-delimited field of a trimmed command line.
fn first_field(args: &str) -> (f: String)
    ensures
        f@ == token(args@),
{
    let v = chars_of(args);
    let e = token_end(&v, 0);
    assert(v@.skip(0) =~= v@);
    let t = slice_chars(&v, 0, e);
    string_of(&t)
}

/// Classify process lines into unmanaged cores and TUN VPNs.
pub fn classify(lines: &Vec<String>) -> (c: Conflicts)
    ensures
        c.unmanaged_core_cmds@.map_values(|s: String| s@) == unmanaged_cmds(strs_view(lines@)),
        c.unmanaged_core == (unmanaged_cmds(strs_view(lines@)).len() > 0),
        c.tun_vpn_cmds@.map_values(|s: String| s@) == tun_cmds(strs_view(lines@)),
        c.tun_vpn == (tun_cmds(strs_view(lines@)).len() > 0),
{
    let mut c = Conflicts::default();
    let mut i: usize = 0;
    while i < lines.len()
        invariant
            i <= lines.len(),
            c.unmanaged_core_cmds@.map_values(|s: String| s@) == unmanaged_cmds(strs_view(lines@).take(i as int)),
            c.unmanaged_core == (c.unmanaged_core_cmds@.len() > 0),
            c.tun_vpn_cmds@.map_values(|s: String| s@) == tun_cmds(strs_view(lines@).take(i as int)),
            c.tun_vpn == (c.tun_vpn_cmds@.len() > 0),
        decreases lines.len() - i,
    {
        let ghost before = strs_view(lines@).take(i as int);
        let ghost after = strs_view(lines@).take(i + 1);
        assert(after.drop_last() =~= before);
        assert(after.last() == lines@[i as int]@);
        let ghost old_u = c.unmanaged_core_cmds@;
        let ghost old_t = c.tun_vpn_cmds@;
        match process_args(lines[i].as_str()) {
            Some(args) => {
                let argv0 = first_field(args.as_str());
                if is_core_argv0(argv0.as_str()) && !is_managed_core(args.as_str()) {
                    c.unmanaged_core = true;
                    c.unmanaged_core_cmds.push(args.clone());
                }
                if is_tun_vpn(argv0.as_str()) {
                    c.tun_vpn = true;
                    c.tun_vpn_cmds.push(args);
                }
            },
            None => {},
        }
        assert(c.unmanaged_core_cmds@.map_values(|s: String| s@) =~= unmanaged_cmds(after));
        assert(c.tun_vpn_cmds@.map_values(|s: String| s@) =~= tun_cmds(after));
        i += 1;
    }
    assert(strs_view(lines@).take(lines.len() as int) =~= strs_view(lines@));
    c
}

/// Classification is per line and by the first field of the command line
/// alone: a process line is reported as a TUN VPN exactly when that field
/// names a TUN VPN ([`is_tun_vpn`]), and as an unmanaged core exactly when
/// the field names the core binary ([`is_core_argv0`]) and the command line
/// is not the managed core ([`is_managed_core`]); nothing else is reported.
pub proof fn law_classify_by_line(lines: Seq<Seq<char>>)
    ensures
        forall|i: int|
            0 <= i < lines.len() && (#[trigger] line_args(lines[i])) is Some && tun_argv0(
                token(line_args(lines[i]).unwrap()),
            ) ==> tun_cmds(lines).contains(line_args(lines[i]).unwrap()),
        forall|k: int|
            #![trigger tun_cmds(lines)[k]]
            0 <= k < tun_cmds(lines).len() ==> tun_argv0(token(tun_cmds(lines)[k])) && exists|i: int|
                0 <= i < lines.len() && #[trigger] line_args(lines[i]) == Some(tun_cmds(lines)[k]),
        forall|i: int|
            0 <= i < lines.len() && (#[trigger] line_args(lines[i])) is Some && core_argv0(
                token(line_args(lines[i]).unwrap()),
            ) && !managed_core(line_args(lines[i]).unwrap()) ==> unmanaged_cmds(lines).contains(
                line_args(lines[i]).unwrap(),
            ),
        forall|k: int|
            #![trigger unmanaged_cmds(lines)[k]]
            0 <= k < unmanaged_cmds(lines).len() ==> core_argv0(token(unmanaged_cmds(lines)[k])) && !managed_core(
                unmanaged_cmds(lines)[k],
            ) && exists|i: int| 0 <= i < lines.len() && #[trigger] line_args(lines[i]) == Some(unmanaged_cmds(lines)[k]),
    decreases lines.len(),
{
    if lines.len() > 0 {
        let init = lines.drop_last();
        law_classify_by_line(init);
        let t0 = tun_cmds(init);
        let t = tun_cmds(lines);
        let u0 = unmanaged_cmds(init);
        let u = unmanaged_cmds(lines);
        let la = line_args(lines.last());
        assert(t == t0 + match la {
            Some(a) => if tun_argv0(token(a)) {
                seq![a]
            } else {
                Seq::<Seq<char>>::empty()
            },
            None => Seq::<Seq<char>>::empty(),
        });
        assert(u == u0 + match la {
            Some(a) => if core_argv0(token(a)) && !managed_core(a) {
                seq![a]
            } else {
                Seq::<Seq<char>>::empty()
            },
            None => Seq::<Seq<char>>::empty(),
        });
        assert forall|i: int|
            0 <= i < lines.len() && (#[trigger] line_args(lines[i])) is Some && tun_argv0(
                token(line_args(lines[i]).unwrap()),
            ) implies t.contains(line_args(lines[i]).unwrap()) by {
            if i < lines.len() - 1 {
                assert(lines[i] == init[i]);
                let v = line_args(init[i]).unwrap();
                let j = choose|j: int| 0 <= j < t0.len() && t0[j] == v;
                assert(t[j] == t0[j]);
            } else {
                assert(t[t0.len() as int] == la.unwrap());
            }
        }
        assert forall|i: int|
            0 <= i < lines.len() && (#[trigger] line_args(lines[i])) is Some && core_argv0(
                token(line_args(lines[i]).unwrap()),
            ) && !managed_core(line_args(lines[i]).unwrap()) implies u.contains(line_args(lines[i]).unwrap()) by {
            if i < lines.len() - 1 {
                assert(lines[i] == init[i]);
                let v = line_args(init[i]).unwrap();
                let j = choose|j: int| 0 <= j < u0.len() && u0[j] == v;
                assert(u[j] == u0[j]);
            } else {
                assert(u[u0.len() as int] == la.unwrap());
            }
        }
        assert forall|k: int| #![trigger t[k]] 0 <= k < t.len() implies tun_argv0(token(t[k])) && exists|i: int|
            0 <= i < lines.len() && #[trigger] line_args(lines[i]) == Some(t[k]) by {
            if k < t0.len() {
                assert(t[k] == t0[k]);
                let i = choose|i: int| 0 <= i < init.len() && #[trigger] line_args(init[i]) == Some(t0[k]);
                assert(lines[i] == init[i]);
            } else {
                assert(line_args(lines[lines.len() - 1]) == Some(t[k]));
            }
        }
        assert forall|k: int| #![trigger u[k]] 0 <= k < u.len() implies core_argv0(token(u[k])) && !managed_core(u[k])
            && exists|i: int| 0 <= i < lines.len() && #[trigger] line_args(lines[i]) == Some(u[k]) by {
            if k < u0.len() {
                assert(u[k] == u0[k]);
                let i = choose|i: int| 0 <= i < init.len() && #[trigger] line_args(init[i]) == Some(u0[k]);
                assert(lines[i] == init[i]);
            } else {
                assert(line_args(lines[lines.len() - 1]) == Some(u[k]));
            }
        }
    }
}

proof fn lemma_basename_plain(s: Seq<char>)
    requires
        forall|i: int| 0 <= i < s.len() ==> s[i] != '/',
    ensures
        basename(s) == s,
    decreases s.len(),
{
    if s.len() > 0 {
        lemma_basename_plain(s.drop_last());
        assert(s.drop_last().push(s.last()) =~= s);
    }
}

proof fn lemma_basename_after_slash(d: Seq<char>, n: Seq<char>)
    requires
        forall|i: int| 0 <= i < n.len() ==> n[i] != '/',
    ensures
        basename(d.push('/') + n) == n,
    decreases n.len(),
{
    if n.len() == 0 {
        assert(d.push('/') + n =~= d.push('/'));
        assert(basename(d.push('/')) == Seq::<char>::empty());
        assert(n =~= Seq::<char>::empty());
    } else {
        lemma_basename_after_slash(d, n.drop_last());
        assert((d.push('/') + n).drop_last() =~= d.push('/') + n.drop_last());
        assert((d.push('/') + n).last() == n.last());
        assert(n.drop_last().push(n.last()) =~= n);
    }
}

/// The known TUN VPN names are recognized whether started by bare name or
/// by a path in any directory: only the file name counts.
pub proof fn law_tun_names(dir: Seq<char>)
    ensures
        forall|n: Seq<char>|
            #![trigger tun_argv0(n)]
            n == "mihomo"@ || n == "clash"@ || n == "clash-meta"@ || n == "clashx"@ || n == "ClashX"@ || n
                == "sing-box"@ || n == "sing_box"@ ==> tun_argv0(n) && tun_argv0(dir.push('/') + n),
        !tun_argv0(dir.push('/')),
{
    reveal_strlit("mihomo");
    reveal_strlit("clash");
    reveal_strlit("clash-meta");
    reveal_strlit("clashx");
    reveal_strlit("ClashX");
    reveal_strlit("sing-box");
    reveal_strlit("sing_box");
    assert forall|n: Seq<char>|
        #![trigger tun_argv0(n)]
        n == "mihomo"@ || n == "clash"@ || n == "clash-meta"@ || n == "clashx"@ || n == "ClashX"@ || n
            == "sing-box"@ || n == "sing_box"@ implies tun_argv0(n) && tun_argv0(dir.push('/') + n) by {
        assert(forall|i: int| 0 <= i < n.len() ==> n[i] != '/');
        lemma_basename_plain(n);
        lemma_basename_after_slash(dir, n);
    }
    assert(basename(dir.push('/')) == Seq::<char>::empty());
}

} // verus!
