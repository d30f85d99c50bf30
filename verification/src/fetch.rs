//! Fetching a package: a shallow clone where it is not there yet, a shallow
//! fetch and hard reset to the fetched commit where it is.
use vstd::prelude::*;
use crate::target::{opt_view, spec_clone_url, PackageRef};

verus! {

/// The history depth of every clone and fetch: the latest commit only.
pub const FETCH_DEPTH: i32 = 1;

/// The git work that brings a package directory up to date.
#[derive(Debug)]
pub enum FetchPlan {
    /// Clone `url` into the package directory, on `branch` where one is given.
    Clone { url: String, branch: Option<String> },
    /// Fetch `refspec` from `origin` and reset hard to `FETCH_HEAD`.
    Update { refspec: String },
}

/// The ref that an update fetches: the package's branch, or `HEAD`.
pub open spec fn spec_update_ref(p: Option<Seq<char>>) -> Seq<char> {
    match p {
        Some(b) => b,
        None => "HEAD"@,
    }
}

/// How a package is fetched into its directory: updated where the directory
/// exists, cloned from its GitHub URL otherwise.
pub fn fetch_or_update(pkg: &PackageRef, package_dir_exists: bool) -> (r: FetchPlan)
    ensures
        package_dir_exists ==> (r matches FetchPlan::Update { refspec } && refspec@
            == spec_update_ref(pkg@.branch)),
        !package_dir_exists ==> (r matches FetchPlan::Clone { url, branch } && url@
            == spec_clone_url(pkg@) && opt_view(branch) == pkg@.branch),
{
    if package_dir_exists {
        let refspec = match &pkg.branch {
            Some(b) => String::from_str(b.as_str()),
            None => String::from_str("HEAD"),
        };
        FetchPlan::Update { refspec }
    } else {
        let branch = match &pkg.branch {
            Some(b) => Some(String::from_str(b.as_str())),
            None => None,
        };
        FetchPlan::Clone { url: pkg.clone_url(), branch }
    }
}

} // verus!
