//! Orphan reconciliation.
//!
//! macOS has no parent-death signal: a crashed predecessor may leave a
//! root-owned `easytier-core` behind. On activation (and after an unexpected
//! core exit) the supervisor scans the process table for cores it launched —
//! recognized by argv[0] being exactly the configured `core_path` — and kills
//! them. A user's own `easytier-core` elsewhere is never matched.

use vstd::prelude::*;
use crate::supervisor::config::Config;
use crate::text::{
    chars_of, has_prefix, parse_i32, parse_i32_chars, skip_ws, slice_chars, token, token_end,
    trim_start, chars_eq, chars_start_with, strs_view,
};

verus! {

/// `args` (a full command line) has argv[0] exactly `core_path`: the whole
/// line, or the path followed by a space. A prefix match rather than a
/// whitespace split, because the production path contains a space.
pub open spec fn argv0_is(args: Seq<char>, core_path: Seq<char>) -> bool {
    args == core_path || has_prefix(args, core_path.push(' '))
}

/// True when `args` has argv[0] exactly equal to `core_path`.
pub fn argv0_matches(args: &str, core_path: &str) -> (b: bool)
    ensures
        b == argv0_is(args@, core_path@),
{
    let a = chars_of(args);
    let mut p = chars_of(core_path);
    if chars_eq(&a, &p) {
        return true;
    }
    p.push(' ');
    chars_start_with(&a, &p)
}

/// One `ps -o pid=,args=` line split into its pid and command line: leading
/// whitespace dropped, the first whitespace-delimited field parsed as an
/// `i32`, the rest after one separator with its leading whitespace dropped.
/// `None` when the pid field does not parse.
pub open spec fn ps_entry(line: Seq<char>) -> Option<(i32, Seq<char>)> {
    let t = trim_start(line);
    let field = token(t);
    match parse_i32(field) {
        Some(pid) => {
            let rest = if field.len() < t.len() {
                t.skip(field.len() + 1int)
            } else {
                Seq::empty()
            };
            Some((pid, trim_start(rest)))
        },
        None => None,
    }
}

/// The pid on a `ps` line that is one of our orphaned cores, if any: parsed,
/// neither our own pid nor the excluded one, argv[0] our core path.
pub open spec fn orphan_on_line(line: Seq<char>, core_path: Seq<char>, self_pid: i32, exclude: Option<i32>) -> Option<i32> {
    match ps_entry(line) {
        Some((pid, args)) => if pid == self_pid || exclude == Some(pid) || !argv0_is(args, core_path) {
            None
        } else {
            Some(pid)
        },
        None => None,
    }
}

/// The orphan pids over a list of `ps` lines, in line order.
pub open spec fn orphans_in(lines: Seq<Seq<char>>, core_path: Seq<char>, self_pid: i32, exclude: Option<i32>) -> Seq<i32>
    decreases lines.len(),
{
    if lines.len() == 0 {
        Seq::empty()
    } else {
        orphans_in(lines.drop_last(), core_path, self_pid, exclude) + match orphan_on_line(
            lines.last(),
            core_path,
            self_pid,
            exclude,
        ) {
            Some(p) => seq![p],
            None => Seq::empty(),
        }
    }
}

/// Splits one `ps` line into pid and command line.
pub fn parse_ps_line(line: &str) -> (r: Option<(i32, String)>)
    ensures
        match r {
            Some((pid, args)) => ps_entry(line@) == Some((pid, args@)),
            None => ps_entry(line@) is None,
        },
{
    let v = chars_of(line);
    let start = skip_ws(&v, 0);
    assert(v@.skip(0) =~= v@);
    let end = token_end(&v, start);
    let pid = match parse_i32_chars(&v, start, end) {
        Some(p) => p,
        None => return None,
    };
    let ghost t = v@.skip(start as int);
    assert(v@.subrange(start as int, end as int) =~= token(t));
    let rest_start = if end < v.len() {
        end + 1
    } else {
        v.len()
    };
    let args_start = skip_ws(&v, rest_start);
    let args = slice_chars(&v, args_start, v.len());
    proof {
        let field = token(t);
        if field.len() < t.len() {
            assert(t.skip(field.len() + 1int) =~= v@.skip(rest_start as int));
        } else {
            assert(v@.skip(rest_start as int) =~= Seq::<char>::empty());
        }
        assert(args@ =~= v@.skip(args_start as int));
    }
    Some((pid, crate::text::string_of(&args)))
}

/// The pids of leftover cores among `ps -axww -o pid=,args=` output lines:
/// every line whose argv[0] is exactly `config.core_path`, except our own pid
/// and `exclude_pid`. The caller SIGKILLs each.
pub fn orphan_pids(lines: &Vec<String>, config: &Config, self_pid: i32, exclude_pid: Option<i32>) -> (pids: Vec<i32>)
    ensures
        pids@ == orphans_in(strs_view(lines@), config.core_path@, self_pid, exclude_pid),
{
    let mut pids: Vec<i32> = Vec::new();
    let mut i: usize = 0;
    while i < lines.len()
        invariant
            i <= lines.len(),
            pids@ == orphans_in(strs_view(lines@).take(i as int), config.core_path@, self_pid, exclude_pid),
        decreases lines.len() - i,
    {
        let ghost before = strs_view(lines@).take(i as int);
        let ghost after = strs_view(lines@).take(i + 1);
        assert(after.drop_last() =~= before);
        assert(after.last() == lines@[i as int]@);
        match parse_ps_line(lines[i].as_str()) {
            Some((pid, args)) => {
                let skip = pid == self_pid || exclude_pid == Some(pid) || !argv0_matches(
                    args.as_str(),
                    config.core_path.as_str(),
                );
                if !skip {
                    pids.push(pid);
                }
            },
            None => {},
        }
        assert(pids@ =~= orphans_in(after, config.core_path@, self_pid, exclude_pid));
        i += 1;
    }
    assert(strs_view(lines@).take(lines.len() as int) =~= strs_view(lines@));
    pids
}

/// Route / utun residue cleanup after a core exit. Process-scoped cleanup is
/// all this version does; nothing further is reconciled here yet.
pub fn cleanup_routes(_config: &Config) {
}

/// Which `ps` lines are orphans, in terms of the parsed line alone: a line is
/// one exactly when its command line is the core path, alone or followed by a
/// space (and then anything: the path may itself hold spaces), and its pid is
/// neither ours nor the excluded one.
pub proof fn law_orphan_line(line: Seq<char>, core_path: Seq<char>, rest: Seq<char>, self_pid: i32, exclude: Option<i32>)
    ensures
        (ps_entry(line) matches Some((pid, args)) && (args == core_path || args == core_path + seq![' '] + rest)
            && pid != self_pid && exclude != Some(pid)) ==> orphan_on_line(line, core_path, self_pid, exclude)
            == Some(ps_entry(line).unwrap().0),
        orphan_on_line(line, core_path, self_pid, exclude) matches Some(pid) ==> (ps_entry(line) matches Some((q, args))
            && q == pid && pid != self_pid && exclude != Some(pid) && (args == core_path || (core_path.len() < args.len()
            && args.take(core_path.len() as int) == core_path && args[core_path.len() as int] == ' '))),
{
    if let Some((pid, args)) = ps_entry(line) {
        if args == core_path + seq![' '] + rest {
            assert(args.take((core_path.len() + 1) as int) =~= core_path.push(' '));
        }
        if has_prefix(args, core_path.push(' ')) {
            assert(args.take(core_path.len() as int) =~= args.take((core_path.len() + 1) as int).take(
                core_path.len() as int,
            ));
            assert(args[core_path.len() as int] == args.take((core_path.len() + 1) as int)[core_path.len() as int]);
        }
    }
}

/// Every orphan line of the listing contributes its pid, and every pid listed
/// comes from an orphan line.
pub proof fn law_orphans_are_the_orphan_lines(lines: Seq<Seq<char>>, core_path: Seq<char>, self_pid: i32, exclude: Option<i32>)
    ensures
        forall|i: int|
            0 <= i < lines.len() && (#[trigger] orphan_on_line(lines[i], core_path, self_pid, exclude)) is Some
                ==> orphans_in(lines, core_path, self_pid, exclude).contains(
                orphan_on_line(lines[i], core_path, self_pid, exclude).unwrap(),
            ),
        forall|k: int|
            #![trigger orphans_in(lines, core_path, self_pid, exclude)[k]]
            0 <= k < orphans_in(lines, core_path, self_pid, exclude).len() ==> exists|i: int|
                0 <= i < lines.len() && #[trigger] orphan_on_line(lines[i], core_path, self_pid, exclude) == Some(
                    orphans_in(lines, core_path, self_pid, exclude)[k],
                ),
    decreases lines.len(),
{
    if lines.len() > 0 {
        let init = lines.drop_last();
        law_orphans_are_the_orphan_lines(init, core_path, self_pid, exclude);
        let before = orphans_in(init, core_path, self_pid, exclude);
        let all = orphans_in(lines, core_path, self_pid, exclude);
        let last = orphan_on_line(lines.last(), core_path, self_pid, exclude);
        assert(all == before + match last {
            Some(p) => seq![p],
            None => Seq::<i32>::empty(),
        });
        assert forall|i: int|
            0 <= i < lines.len() && (#[trigger] orphan_on_line(lines[i], core_path, self_pid, exclude)) is Some
                implies all.contains(orphan_on_line(lines[i], core_path, self_pid, exclude).unwrap()) by {
            if i < lines.len() - 1 {
                assert(lines[i] == init[i]);
                let v = orphan_on_line(init[i], core_path, self_pid, exclude).unwrap();
                let j = choose|j: int| 0 <= j < before.len() && before[j] == v;
                assert(all[j] == before[j]);
            } else {
                assert(all[before.len() as int] == last.unwrap());
            }
        }
        assert forall|k: int| #![trigger all[k]] 0 <= k < all.len() implies exists|i: int|
            0 <= i < lines.len() && #[trigger] orphan_on_line(lines[i], core_path, self_pid, exclude) == Some(all[k]) by {
            if k < before.len() {
                assert(all[k] == before[k]);
                let i = choose|i: int|
                    0 <= i < init.len() && #[trigger] orphan_on_line(init[i], core_path, self_pid, exclude) == Some(before[k]);
                assert(lines[i] == init[i]);
            } else {
                assert(orphan_on_line(lines[lines.len() - 1], core_path, self_pid, exclude) == Some(all[k]));
            }
        }
    }
}

} // verus!
