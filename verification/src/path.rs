//! Resolving a user-supplied filesystem path.
//!
//! The resolver itself performs no I/O: the caller probes the filesystem
//! (existence, current working directory, canonicalization) and hands the
//! outcomes in as plain values.  The decision logic here is what is
//! verified: which probe decides, in which order, and which error or
//! result each outcome yields.  The existence check and the later
//! canonicalization are two separate probes, so the combination is a
//! best-effort validation, not a transactional guarantee.

use vstd::prelude::*;

use crate::errors::AccessCause;
use crate::errors::ConfigError;

verus! {

/// The filesystem facts the caller gathered for one path, in the order
/// the resolution consults them.
pub struct FsProbes {
    /// Whether the effective path exists on the filesystem.
    pub exists: bool,
    /// The current working directory, if it could be obtained.
    pub cwd: Option<String>,
    /// The canonical form of the working directory joined with the
    /// effective path (symlinks and `.`/`..` segments resolved), if
    /// canonicalization succeeded.  Only consulted for relative paths.
    pub canonical: Option<String>,
}

/// The path a raw flag value denotes: the empty string means the current
/// directory.
pub open spec fn effective_path_spec(raw: Seq<char>) -> Seq<char> {
    if raw.len() == 0 {
        seq!['.']
    } else {
        raw
    }
}

/// An absolute path, by the Unix convention of a leading separator.
pub open spec fn is_absolute_path(p: Seq<char>) -> bool {
    p.len() >= 1 && p[0] == '/'
}

/// The path a raw flag value denotes, as an owned string.
pub fn effective_path(raw: &str) -> (r: String)
    ensures
        r@ == effective_path_spec(raw@),
{
    if raw.unicode_len() == 0 {
        let dot = ".".to_owned();
        proof {
            reveal_strlit(".");
            assert(dot@ =~= seq!['.']);
        }
        dot
    } else {
        raw.to_owned()
    }
}

/// Resolve a raw path against the supplied filesystem probes.
///
/// A path that does not exist fails with `PathNotFound`.  An existing
/// absolute path is returned unchanged.  An existing relative path
/// resolves to the canonical form of the working directory joined with
/// it; a failed working-directory lookup or a failed canonicalization
/// fails with `PathAccess`, naming the failing lookup.
pub fn resolve_path(raw: &str, probes: &FsProbes) -> (r: Result<String, ConfigError>)
    ensures
        ({
            let p = effective_path_spec(raw@);
            &&& (!probes.exists ==> (r matches Err(ConfigError::PathNotFound { path })
                && path@ == p))
            &&& (probes.exists && is_absolute_path(p) ==> (r matches Ok(out) && out@ == p))
            &&& (probes.exists && !is_absolute_path(p) && probes.cwd is None ==> (r matches Err(
                ConfigError::PathAccess { path, cause },
            ) && path@ == p && cause == AccessCause::CurrentDirLookup))
            &&& (probes.exists && !is_absolute_path(p) && probes.cwd is Some
                && probes.canonical is None ==> (r matches Err(
                ConfigError::PathAccess { path, cause },
            ) && path@ == p && cause == AccessCause::Canonicalize))
            &&& (probes.canonical matches Some(canon) ==> (probes.exists && !is_absolute_path(p)
                && probes.cwd is Some ==> (r matches Ok(out) && out@ == canon@)))
        }),
{
    let p = effective_path(raw);
    if !probes.exists {
        return Err(ConfigError::PathNotFound { path: p });
    }
    let abs = p.as_str().unicode_len() >= 1 && p.as_str().get_char(0) == '/';
    if abs {
        return Ok(p);
    }
    if probes.cwd.is_none() {
        return Err(ConfigError::PathAccess { path: p, cause: AccessCause::CurrentDirLookup });
    }
    match &probes.canonical {
        Some(c) => Ok(c.clone()),
        None => Err(ConfigError::PathAccess { path: p, cause: AccessCause::Canonicalize }),
    }
}

} // verus!
