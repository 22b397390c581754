//! The names that the program gives to machines and to per-project directories.

use vstd::prelude::*;
use vstd::string::StringExecFns;

use crate::os_path::{shown, shown_of};
use crate::text::{dashed, replaced};

verus! {

/// The name of the machine for `branch` of `repo`. A slash cannot stand in the name of a
/// machine, so each one becomes a dash.
pub open spec fn vm_name_of(repo: Seq<char>, branch: Seq<char>) -> Seq<char> {
    "tachikoma-"@ + replaced(repo, '/', '-') + "-"@ + replaced(branch, '/', '-')
}

/// The name of the machine for `branch` of `repo`.
pub fn vm_name(repo: &str, branch: &str) -> (name: String)
    ensures
        name@ == vm_name_of(repo@, branch@),
{
    let mut name = "tachikoma-".to_string();
    name.append(dashed(repo).as_str());
    name.append("-");
    name.append(dashed(branch).as_str());
    name
}

/// The slug of a project's path: `/a/b/c` becomes `-a-b-c`.
pub open spec fn path_slug_of(path: Seq<char>) -> Seq<char> {
    replaced(shown_of(path), '/', '-')
}

/// The slug of a project's path.
pub fn path_slug(path: &str) -> (slug: String)
    ensures
        slug@ == path_slug_of(path@),
{
    dashed(shown(path).as_str())
}

} // verus!
