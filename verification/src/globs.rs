//! Trusted boundary to the glob crate: expanding a package pattern against
//! the file system.  What a pattern matches depends on what is on disk, so
//! nothing is claimed of the entries; whether a pattern compiles at all is a
//! function of the pattern alone.

use vstd::prelude::*;

verus! {

/// Whether glob::glob accepts the pattern; glob::Pattern decides this from
/// the pattern text alone.
pub uninterp spec fn glob_pattern_ok(pattern: Seq<char>) -> bool;

/// Relies on glob::glob: expands the pattern against the file system,
/// failing exactly when the pattern does not compile.  Each matched entry is
/// a path, or the message of a per-entry read error.
#[verifier::external_body]
pub(crate) fn expand_glob(pattern: &str) -> (r: Result<Vec<Result<String, String>>, String>)
    ensures
        r is Ok <==> glob_pattern_ok(pattern@),
{
    match glob::glob(pattern) {
        Ok(paths) => Ok(
            paths.map(
                |entry| match entry {
                    Ok(path) => Ok(path.to_string_lossy().into_owned()),
                    Err(e) => Err(e.to_string()),
                },
            ).collect(),
        ),
        Err(e) => Err(e.to_string()),
    }
}

} // verus!
