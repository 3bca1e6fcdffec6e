//! Where the cache directory is: beneath the temporary directory named by the
//! environment where that exists, else beneath the user's home directory.
//!
//! Whether a path exists is asked of the filesystem by the caller; this module
//! builds the candidate paths and makes the choice.

use vstd::prelude::*;
use std::path::PathBuf;

verus! {

/// The cache directory, relative to the temporary directory.
pub const TEMP_SUBPATH: &'static str = "nexon/MapleStory Worlds";

/// The cache directory, relative to the home directory.
pub const HOME_SUBPATH: &'static str = "AppData/Local/Temp/nexon/MapleStory Worlds";

/// Why no target could be named.
#[derive(Clone, Copy, Debug, PartialEq, Eq, Structural)]
pub enum TargetError {
    /// The user's home directory could not be determined.
    NoHomeDir,
}

/// Relies on `dirs::home_dir`: the user's home directory, if the platform can
/// tell it. The answer depends on the environment, so nothing is stated of it.
#[verifier::external_body]
fn home_dir() -> Option<PathBuf> {
    dirs::home_dir()
}

/// The path `rel` appended to `base`, as `Path::join` builds it.
pub uninterp spec fn joined(base: PathBuf, rel: Seq<char>) -> PathBuf;

/// Relies on `Path::join`: `rel` appended to `base`; the result depends on the
/// two arguments alone.
#[verifier::external_body]
fn join_path(base: &PathBuf, rel: &str) -> (r: PathBuf)
    ensures
        r == joined(*base, rel@),
{
    base.join(rel)
}

/// The path the cache directory has beneath a temporary directory.
pub fn temp_candidate(temp_dir: &PathBuf) -> (r: PathBuf)
    ensures
        r == joined(*temp_dir, TEMP_SUBPATH@),
{
    join_path(temp_dir, TEMP_SUBPATH)
}

/// The target when the temporary directory gave none: beneath the home
/// directory if there is one, else the error.
pub fn fallback_target(home: Option<PathBuf>) -> (r: Result<PathBuf, TargetError>)
    ensures
        r is Err <==> home is None,
        r is Err ==> r->Err_0 == TargetError::NoHomeDir,
        home is Some ==> r == Ok::<PathBuf, TargetError>(joined(home->0, HOME_SUBPATH@)),
{
    match home {
        Some(h) => Ok(join_path(&h, HOME_SUBPATH)),
        None => Err(TargetError::NoHomeDir),
    }
}

/// The target: the candidate beneath the temporary directory where the caller
/// found that it exists (`temp_hit`), else the one beneath the home directory.
pub fn target_folder(temp_hit: Option<PathBuf>) -> (r: Result<PathBuf, TargetError>)
    ensures
        temp_hit is Some ==> r == Ok::<PathBuf, TargetError>(temp_hit->0),
        r is Err ==> temp_hit is None && r->Err_0 == TargetError::NoHomeDir,
        temp_hit is None && r is Ok ==> exists|h: PathBuf|
            r == Ok::<PathBuf, TargetError>(joined(h, HOME_SUBPATH@)),
{
    match temp_hit {
        Some(p) => Ok(p),
        None => fallback_target(home_dir()),
    }
}

} // verus!
