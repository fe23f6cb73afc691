//! A package-index entry and the lookup that resolves a package name to
//! its download URL.

use vstd::prelude::*;
use vstd::string::StringExecFns;

verus! {

/// One entry of the remote package index: a version and the URL its
/// archive is downloaded from.
#[derive(Debug, Clone)]
pub struct Module {
    pub version: String,
    pub url: String,
}

/// Whether an index holds an entry under the given name.
pub open spec fn spec_index_has(index: Seq<(String, Module)>, name: Seq<char>) -> bool {
    exists|i: int| 0 <= i < index.len() && index[i].0@ == name
}

/// Look a package name up in the index, decoded as a list of
/// name-to-entry pairs.
///
/// Returns the first entry whose name matches, and nothing exactly when
/// no entry matches.
pub fn resolve_module<'a>(index: &'a Vec<(String, Module)>, name: &String) -> (r: Option<
    &'a Module,
>)
    ensures
        r is Some <==> spec_index_has(index@, name@),
        r matches Some(m) ==> exists|i: int|
            {
                &&& 0 <= i < index@.len()
                &&& index@[i].0@ == name@
                &&& *m == index@[i].1
                &&& forall|j: int| 0 <= j < i ==> index@[j].0@ != name@
            },
{
    let mut k: usize = 0;
    while k < index.len()
        invariant
            k <= index@.len(),
            forall|j: int| 0 <= j < k ==> index@[j].0@ != name@,
        decreases index@.len() - k,
    {
        if index[k].0 == *name {
            return Some(&index[k].1);
        }
        k = k + 1;
    }
    None
}

/// The path a package's archive is downloaded to: the modules directory,
/// a separator, the package name and the archive suffix.
pub fn archive_destination(modules_dir: &str, package_name: &str) -> (r: String)
    ensures
        r@ == modules_dir@ + "/"@ + package_name@ + ".zip"@,
{
    let mut path = modules_dir.to_owned();
    path.append("/");
    path.append(package_name);
    path.append(".zip");
    path
}

/// The directory a package's archive is expanded into: the modules
/// directory, a separator and the package name.
pub fn unpack_destination(modules_dir: &str, package_name: &str) -> (r: String)
    ensures
        r@ == modules_dir@ + "/"@ + package_name@,
{
    let mut path = modules_dir.to_owned();
    path.append("/");
    path.append(package_name);
    path
}

} // verus!
