//! Where the store lives on disk: every path is derived from the user's
//! home directory, and none is created here.

use crate::error::ConfigError;
use vstd::prelude::*;
use vstd::string::{StrSliceExecFns, StringExecFns};

verus! {

/// `base` extended by the component `name`, with one `/` between the two
/// unless `base` is empty or already ends in one.
pub open spec fn joined(base: Seq<char>, name: Seq<char>) -> Seq<char> {
    if base.len() == 0 || base.last() == '/' {
        base + name
    } else {
        base + seq!['/'] + name
    }
}

/// The directory that holds everything this crate keeps for a user.
pub open spec fn store_root(home: Seq<char>) -> Seq<char> {
    joined(home, ".solc-select"@)
}

/// The directory whose entries are the installed releases.
pub open spec fn artifact_dir_under(home: Seq<char>) -> Seq<char> {
    joined(store_root(home), "artifacts"@)
}

/// The file that names the active release.
pub open spec fn pointer_path_under(home: Seq<char>) -> Seq<char> {
    joined(store_root(home), "global-version"@)
}

/// The name of the file that holds release `version`.
pub open spec fn artifact_name(version: Seq<char>) -> Seq<char> {
    "solc-"@ + version
}

/// Extends the path `base` by the component `name`.
pub fn join(base: &str, name: &str) -> (path: String)
    ensures
        path@ == joined(base@, name@),
{
    let n = base.unicode_len();
    let mut path = String::from_str(base);
    if n > 0 && base.get_char(n - 1) != '/' {
        proof {
            reveal_strlit("/");
            assert("/"@ =~= seq!['/']);
        }
        path.append("/");
    }
    path.append(name);
    path
}

/// The artifact directory of the user whose home directory is `home`.
pub fn artifact_dir_in(home: &str) -> (dir: String)
    ensures
        dir@ == artifact_dir_under(home@),
{
    let root = join(home, ".solc-select");
    join(root.as_str(), "artifacts")
}

/// The pointer file of the user whose home directory is `home`.
pub fn global_version_path_in(home: &str) -> (path: String)
    ensures
        path@ == pointer_path_under(home@),
{
    let root = join(home, ".solc-select");
    join(root.as_str(), "global-version")
}

/// The name of the file that holds release `version`.
pub fn artifact_file_name(version: &str) -> (name: String)
    ensures
        name@ == artifact_name(version@),
{
    let mut name = String::from_str("solc-");
    name.append(version);
    name
}

/// The path of the file that holds release `version` in directory `dir`.
pub fn artifact_path(dir: &str, version: &str) -> (path: String)
    ensures
        path@ == joined(dir@, artifact_name(version@)),
{
    let name = artifact_file_name(version);
    join(dir, name.as_str())
}

/// Asks `dirs::home_dir` for the current user's home directory. Nothing is
/// claimed of the answer: it is a fact about the user's account. A directory
/// whose name is not valid Unicode comes back as `None`, like a missing one.
#[verifier::external_body]
pub(crate) fn home_dir() -> (home: Option<String>) {
    match dirs::home_dir() {
        Some(path) => path.into_os_string().into_string().ok(),
        None => None,
    }
}

/// The artifact directory of the current user. It is computed, not created.
///
/// Fails only when the user has no home directory.
pub fn get_artifact_dir() -> (result: Result<String, ConfigError>)
    ensures
        match result {
            Ok(dir) => exists|home: Seq<char>| dir@ == artifact_dir_under(home),
            Err(e) => e == ConfigError::NoHomeDirectory,
        },
{
    match home_dir() {
        Some(home) => Ok(artifact_dir_in(home.as_str())),
        None => Err(ConfigError::NoHomeDirectory),
    }
}

/// The pointer file of the current user. It is computed, not created.
///
/// Fails only when the user has no home directory.
pub fn get_global_version_path() -> (result: Result<String, ConfigError>)
    ensures
        match result {
            Ok(path) => exists|home: Seq<char>| path@ == pointer_path_under(home),
            Err(e) => e == ConfigError::NoHomeDirectory,
        },
{
    match home_dir() {
        Some(home) => Ok(global_version_path_in(home.as_str())),
        None => Err(ConfigError::NoHomeDirectory),
    }
}

} // verus!
