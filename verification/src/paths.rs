//! Path arithmetic on UTF-8 path strings, matching `std::path` on Unix.

use vstd::prelude::*;
use crate::text::{append_str, string_of};

verus! {

/// `PathBuf::push` on Unix: an absolute `rel` replaces `base`; otherwise a
/// `/` is inserted unless `base` is empty or already ends in `/`.
pub open spec fn path_join(base: Seq<char>, rel: Seq<char>) -> Seq<char> {
    if rel.len() > 0 && rel[0] == '/' {
        rel
    } else if base.len() == 0 || base.last() == '/' {
        base + rel
    } else {
        base + seq!['/'] + rel
    }
}

/// `Path::join` of two UTF-8 paths.
pub fn join(base: &str, rel: &str) -> (p: String)
    ensures
        p@ == path_join(base@, rel@),
{
    let r = crate::text::chars_of(rel);
    let mut out: Vec<char> = Vec::new();
    if r.len() > 0 && r[0] == '/' {
        append_str(&mut out, rel);
    } else {
        let b = crate::text::chars_of(base);
        append_str(&mut out, base);
        if b.len() > 0 && b[b.len() - 1] != '/' {
            out.push('/');
        }
        append_str(&mut out, rel);
        proof {
            if b.len() > 0 && b@.last() != '/' {
                assert(out@ =~= base@ + seq!['/'] + rel@);
            } else {
                assert(out@ =~= base@ + rel@);
            }
        }
    }
    assert(out@ =~= path_join(base@, rel@));
    string_of(&out)
}

/// What `Path::parent` returns for the path `p`: `None` for a root or empty
/// path, else the path without its last component.
pub uninterp spec fn path_parent(p: Seq<char>) -> Option<Seq<char>>;

/// An optional `String` by its characters.
pub open spec fn opt_chars(o: Option<String>) -> Option<Seq<char>> {
    match o {
        Some(s) => Some(s@),
        None => None,
    }
}

/// `Path::parent` of a UTF-8 path. Claimed: the result is the named parent
/// of `p`; the parent of a UTF-8 path is a prefix of it at a component
/// boundary, so the lossy conversion back to a `String` is exact.
#[verifier::external_body]
pub(crate) fn parent(p: &str) -> (r: Option<String>)
    ensures
        opt_chars(r) == path_parent(p@),
{
    std::path::Path::new(p).parent().map(|q| q.to_string_lossy().into_owned())
}

} // verus!
