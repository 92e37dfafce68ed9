//! `supervisor.toml`: where the core binary, logs and hooks live.

use vstd::prelude::*;
use crate::paths::{join, parent, path_join, path_parent};
use crate::text::{append_str, dec_nat, push_dec_u64, string_of};

verus! {

/// Default hook timeout when `hook_timeout_secs` is absent.
pub const DEFAULT_HOOK_TIMEOUT_SECS: u64 = 30;

/// Default config path, overridable with `--config`.
pub const DEFAULT_CONFIG_PATH: &'static str = "/Library/Application Support/EasyTier/supervisor.toml";

/// The installer-written supervisor configuration.
#[derive(Debug, Clone, PartialEq, Eq)]
pub struct Config {
    /// Protocol version the installer expects. Advisory only.
    pub proto: u32,
    /// uid of the installing user; connection auth allows {0, owner_uid}.
    pub owner_uid: u32,
    /// Absolute path to the easytier-core binary we spawn and reap.
    pub core_path: String,
    /// Directory for core.out.log.
    pub log_dir: String,
    /// Directory holding lifecycle hook scripts. Absent => `<install_root>/hooks`.
    pub hooks_dir: Option<String>,
    /// Per-hook wall-clock budget before SIGKILL, in seconds. Absent => 30.
    pub hook_timeout_secs: Option<u64>,
}

/// The install root for a log directory: its parent, or `/` without one.
pub open spec fn install_root_of(log_dir: Seq<char>) -> Seq<char> {
    match path_parent(log_dir) {
        Some(p) => p,
        None => "/"@,
    }
}

/// The hooks directory a config names.
pub open spec fn hooks_dir_of(c: Config) -> Seq<char> {
    match c.hooks_dir {
        Some(d) => d@,
        None => path_join(install_root_of(c.log_dir@), "hooks"@),
    }
}

/// The hook timeout a config names, in seconds.
pub open spec fn hook_timeout_of(c: Config) -> u64 {
    match c.hook_timeout_secs {
        Some(s) => s,
        None => DEFAULT_HOOK_TIMEOUT_SECS,
    }
}

impl Config {
    /// Install root == parent of the log directory (`<root>/logs`), used as the
    /// core process cwd. Falls back to `/` if the log dir has no parent.
    pub fn install_root(&self) -> (r: String)
        ensures
            r@ == install_root_of(self.log_dir@),
    {
        match parent(self.log_dir.as_str()) {
            Some(p) => p,
            None => "/".to_owned(),
        }
    }

    /// Directory holding hook scripts: the configured `hooks_dir`, else
    /// `<install_root>/hooks`.
    pub fn hooks_dir(&self) -> (r: String)
        ensures
            r@ == hooks_dir_of(*self),
    {
        match &self.hooks_dir {
            Some(d) => d.clone(),
            None => {
                let root = self.install_root();
                join(root.as_str(), "hooks")
            },
        }
    }

    /// Wall-clock budget for one hook run before SIGKILL, in seconds.
    pub fn hook_timeout(&self) -> (secs: u64)
        ensures
            secs == hook_timeout_of(*self),
    {
        match self.hook_timeout_secs {
            Some(s) => s,
            None => DEFAULT_HOOK_TIMEOUT_SECS,
        }
    }
}

/// The verdict on a config file's metadata when running as root: a regular
/// file, owned by root, not group/world writable.
pub open spec fn ownership_verdict(is_file: bool, uid: u32, mode: u32) -> Result<(), Seq<char>> {
    if !is_file {
        Err("config must be a regular file (symlink or special file rejected)"@)
    } else if uid != 0 {
        Err("config must be owned by root, is uid "@ + dec_nat(uid as nat))
    } else if mode & 0o022u32 != 0 {
        Err("config must not be group/world writable"@)
    } else {
        Ok(())
    }
}

/// A `Result<(), String>` by the characters of its error.
pub open spec fn unit_result_view(r: Result<(), String>) -> Result<(), Seq<char>> {
    match r {
        Ok(()) => Ok(()),
        Err(e) => Err(e@),
    }
}

/// Root-mode config safety predicate: the config must be a regular file, owned
/// by root, and not group/world writable.
pub fn check_secure_ownership(is_file: bool, uid: u32, mode: u32) -> (r: Result<(), String>)
    ensures
        unit_result_view(r) == ownership_verdict(is_file, uid, mode),
{
    if !is_file {
        return Err("config must be a regular file (symlink or special file rejected)".to_owned());
    }
    if uid != 0 {
        let mut v: Vec<char> = Vec::new();
        append_str(&mut v, "config must be owned by root, is uid ");
        push_dec_u64(&mut v, uid as u64);
        assert(v@ =~= "config must be owned by root, is uid "@ + dec_nat(uid as nat));
        return Err(string_of(&v));
    }
    if mode & 0o022u32 != 0 {
        return Err("config must not be group/world writable".to_owned());
    }
    Ok(())
}

} // verus!
