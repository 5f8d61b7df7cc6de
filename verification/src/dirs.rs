//! Where the tool keeps its files on this machine.

use crate::text::join2;
use vstd::prelude::*;

verus! {

/// `directories::ProjectDirs::from` and `cache_dir`: the cache directory that
/// the operating system's conventions give an application. It depends on the
/// user's environment, so nothing is assumed of it. `None` where no home
/// directory can be found or the path is not valid UTF-8.
#[verifier::external_body]
fn project_cache_dir(qualifier: &str, organization: &str, application: &str) -> Option<String> {
    let dirs = directories::ProjectDirs::from(qualifier, organization, application)?;
    Some(dirs.cache_dir().to_str()?.to_owned())
}

/// The directory under a cache directory that holds the checkouts.
pub open spec fn checkouts_under(cache_dir: Seq<char>) -> Seq<char> {
    cache_dir + "/checkouts"@
}

/// The directory under `cache_dir` that holds the checkouts.
pub fn checkouts_dir_in(cache_dir: &str) -> (r: String)
    ensures
        r@ == checkouts_under(cache_dir@),
{
    join2(cache_dir, "/checkouts")
}

/// The tool's cache directory for the current user, if there is one.
pub fn get_cache_dir() -> Option<String> {
    project_cache_dir("", "", "preco")
}

/// The directory that holds the checkouts for the current user, if the user
/// has a cache directory: the directory `checkouts` under it.
pub fn get_checkouts_dir() -> (r: Option<String>)
    ensures
        r matches Some(dir) ==> exists|cache_dir: Seq<char>| dir@ == checkouts_under(cache_dir),
{
    match get_cache_dir() {
        Some(cache_dir) => Some(checkouts_dir_in(cache_dir.as_str())),
        None => None,
    }
}

} // verus!
