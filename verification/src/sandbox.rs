//! Configuration of the task execution sandbox.

use vstd::prelude::*;

use crate::text::{has_prefix, owned, push_str};

verus! {

/// Sandbox configuration.
#[derive(Debug, Clone)]
pub struct SandboxConfig {
    /// Whether to isolate in a pid namespace.
    pub pid_namespace: bool,
    /// Whether to apply cgroup resource limits.
    pub cgroup: bool,
    /// Whether to use a temporary file system.
    pub temp_fs: bool,
    /// Prefix of the temporary work directory.
    pub temp_dir_prefix: String,
    /// Timeout in seconds.
    pub timeout_secs: u64,
}

impl SandboxConfig {
    /// The default configuration: no pid namespace, no cgroup, a temporary
    /// file system, prefix `q-body-sandbox-`, 300 s.
    pub fn new() -> (c: Self)
        ensures
            !c.pid_namespace,
            !c.cgroup,
            c.temp_fs,
            c.temp_dir_prefix@ == "q-body-sandbox-"@,
            c.timeout_secs == 300,
    {
        SandboxConfig {
            pid_namespace: false,
            cgroup: false,
            temp_fs: true,
            temp_dir_prefix: owned("q-body-sandbox-"),
            timeout_secs: 300,
        }
    }

    /// The configuration with pid-namespace isolation.
    pub fn with_pid_namespace(self) -> (c: Self)
        ensures
            c == (SandboxConfig { pid_namespace: true, ..self }),
    {
        let mut c = self;
        c.pid_namespace = true;
        c
    }

    /// The configuration with cgroup limits.
    pub fn with_cgroup(self) -> (c: Self)
        ensures
            c == (SandboxConfig { cgroup: true, ..self }),
    {
        let mut c = self;
        c.cgroup = true;
        c
    }

    /// The configuration with a timeout of `secs` seconds.
    pub fn with_timeout(self, secs: u64) -> (c: Self)
        ensures
            c == (SandboxConfig { timeout_secs: secs, ..self }),
    {
        let mut c = self;
        c.timeout_secs = secs;
        c
    }
}

impl Default for SandboxConfig {
    fn default() -> (c: Self)
        ensures
            !c.pid_namespace,
            !c.cgroup,
            c.temp_fs,
            c.temp_dir_prefix@ == "q-body-sandbox-"@,
            c.timeout_secs == 300,
    {
        Self::new()
    }
}

/// Whether the canonical path `path` lies under the canonical root `root`
/// (component-wise, as `Path::starts_with` compares canonical paths).
pub open spec fn within_root(path: Seq<char>, root: Seq<char>) -> bool {
    path == root || (has_prefix(path, root) && ((root.len() > 0 && root.last() == '/')
        || path[root.len() as int] == '/'))
}

/// The outcome of the escape check, given what canonicalising the allowed
/// root and the work directory gave.
pub open spec fn work_dir_outcome(root: Result<Seq<char>, Seq<char>>, path: Result<Seq<char>, Seq<char>>) -> Result<Seq<char>, Seq<char>> {
    match root {
        Err(e) => Err("Failed to canonicalize allowed root: "@ + e),
        Ok(r) => match path {
            Err(e) => Err("Failed to canonicalize work dir: "@ + e),
            Ok(p) => if within_root(p, r) {
                Ok(p)
            } else {
                Err("path escapes allowlist"@)
            },
        },
    }
}

/// The views of a result of strings.
pub open spec fn result_view(r: Result<String, String>) -> Result<Seq<char>, Seq<char>> {
    match r {
        Ok(s) => Ok(s@),
        Err(e) => Err(e@),
    }
}

/// Path-escape pre-flight check, on what canonicalising (which resolves
/// symbolic links) gave for the allowed root and for the work directory:
/// the canonical work directory when it lies under the canonical root,
/// else the error.
pub fn validate_work_dir(canonical_root: Result<String, String>, canonical_path: Result<String, String>) -> (r: Result<String, String>)
    ensures
        result_view(r) == work_dir_outcome(result_view(canonical_root), result_view(canonical_path)),
{
    let root = match canonical_root {
        Err(e) => {
            let mut m = owned("Failed to canonicalize allowed root: ");
            push_str(&mut m, e.as_str());
            return Err(m);
        },
        Ok(r) => r,
    };
    let path = match canonical_path {
        Err(e) => {
            let mut m = owned("Failed to canonicalize work dir: ");
            push_str(&mut m, e.as_str());
            return Err(m);
        },
        Ok(p) => p,
    };
    let pv = crate::text::chars_of(path.as_str());
    let rv = crate::text::chars_of(root.as_str());
    let within = if crate::text::chars_eq(&pv, &rv) {
        true
    } else if crate::text::starts_with(&pv, &rv) {
        proof {
            if pv.len() == rv.len() {
                assert(pv@ =~= rv@);
            }
        }
        (rv.len() > 0 && rv[rv.len() - 1] == '/') || pv[rv.len()] == '/'
    } else {
        false
    };
    if within {
        Ok(path)
    } else {
        Err(owned("path escapes allowlist"))
    }
}

} // verus!
