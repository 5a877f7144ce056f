//! Where the sources of packages are kept.

use crate::package::package::{Package, PackageView};
use crate::util::path::{join_path, spec_join_path};
use vstd::prelude::*;
use vstd::string::StringExecFns;

verus! {

/// The directory below which the sources of all packages are kept.
#[derive(Debug)]
pub struct SourceCache {
    root: String,
}

/// The place of the source of one package.
#[derive(Debug)]
pub struct SourceEntry {
    pub path: String,
}

/// Where the source of a package is kept below `root`: in the directory
/// named after the package and its version.
pub open spec fn spec_source_path(root: Seq<char>, package: PackageView) -> Seq<char> {
    spec_join_path(root, package.name + "-"@ + package.version)
}

impl SourceCache {
    /// The directory of the cache.
    pub closed spec fn root(&self) -> Seq<char> {
        self.root@
    }

    /// The cache below `root`.
    pub fn new(root: String) -> (r: SourceCache)
        ensures
            r.root() == root@,
    {
        SourceCache { root }
    }

    /// The place of the source of a package.
    pub fn source_for(&self, package: &Package) -> (r: SourceEntry)
        ensures
            r.path@ == spec_source_path(self.root(), package@),
    {
        let directory = String::from_str(package.name().as_str()).concat("-").concat(
            package.version().as_str(),
        );
        SourceEntry { path: join_path(self.root.as_str(), directory.as_str()) }
    }
}

impl Clone for SourceCache {
    fn clone(&self) -> (r: Self)
        ensures
            r.root() == self.root(),
    {
        SourceCache { root: self.root.clone() }
    }
}

} // verus!
