//! Peer authorization. In launchd mode root and the installing user may
//! connect; in `--dev-listen` mode only the supervisor's own effective uid.

use vstd::prelude::*;
use crate::text::{append_str, dec_nat, push_dec_u64, string_of};

verus! {

/// Which peers the supervisor accepts.
#[derive(Debug, Clone, Copy, PartialEq, Eq, Structural)]
pub enum AuthMode {
    /// launchd/production: allow root and the installing user.
    Launchd { owner_uid: u32 },
    /// `--dev-listen`: allow only the process's own euid.
    Dev { euid: u32 },
}

/// Whether `mode` admits a peer with effective uid `uid`.
pub open spec fn admits(mode: AuthMode, uid: u32) -> bool {
    match mode {
        AuthMode::Launchd { owner_uid } => uid == 0 || uid == owner_uid,
        AuthMode::Dev { euid } => uid == euid,
    }
}

impl AuthMode {
    /// Whether a peer with effective uid `uid` may connect.
    pub fn allows(&self, uid: u32) -> (b: bool)
        ensures
            b == admits(*self, uid),
    {
        match self {
            AuthMode::Launchd { owner_uid } => uid == 0 || uid == *owner_uid,
            AuthMode::Dev { euid } => uid == *euid,
        }
    }
}

/// What the kernel wrote for a peer credential request, as plain values:
/// the byte length it reported, the structure's version, the number of
/// groups and the effective uid.
#[derive(Debug, Clone, Copy, PartialEq, Eq, Structural)]
pub struct PeerCred {
    pub len: u32,
    pub version: u32,
    pub ngroups: i16,
    pub uid: u32,
}

/// The fail-closed reading of a peer credential: the full structure
/// (`expected_len` bytes), at `expected_version`, with at least one group,
/// else the first mismatch as an error.
pub open spec fn cred_verdict(c: PeerCred, expected_len: u32, expected_version: u32) -> Result<u32, Seq<char>> {
    if c.len != expected_len {
        Err("unexpected xucred size "@ + dec_nat(c.len as nat))
    } else if c.version != expected_version {
        Err("unexpected xucred version "@ + dec_nat(c.version as nat))
    } else if c.ngroups < 1 {
        Err("xucred reported no groups"@)
    } else {
        Ok(c.uid)
    }
}

/// The peer's effective uid from a credential, refusing a short, wrongly
/// versioned or group-less one: such a credential cannot be trusted.
pub fn peer_cred_uid(c: PeerCred, expected_len: u32, expected_version: u32) -> (r: Result<u32, String>)
    ensures
        match r {
            Ok(u) => cred_verdict(c, expected_len, expected_version) == Ok::<u32, Seq<char>>(u),
            Err(e) => cred_verdict(c, expected_len, expected_version) == Err::<u32, Seq<char>>(e@),
        },
{
    if c.len != expected_len {
        let mut v: Vec<char> = Vec::new();
        append_str(&mut v, "unexpected xucred size ");
        push_dec_u64(&mut v, c.len as u64);
        assert(v@ =~= "unexpected xucred size "@ + dec_nat(c.len as nat));
        return Err(string_of(&v));
    }
    if c.version != expected_version {
        let mut v: Vec<char> = Vec::new();
        append_str(&mut v, "unexpected xucred version ");
        push_dec_u64(&mut v, c.version as u64);
        assert(v@ =~= "unexpected xucred version "@ + dec_nat(c.version as nat));
        return Err(string_of(&v));
    }
    if c.ngroups < 1 {
        return Err("xucred reported no groups".to_owned());
    }
    Ok(c.uid)
}

} // verus!
