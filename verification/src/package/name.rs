//! Names and versions of packages: text, equal where the text is.

use vstd::prelude::*;
use vstd::std_specs::cmp::PartialEqSpecImpl;
use vstd::std_specs::convert::FromSpecImpl;

verus! {

/// The name of a package.
#[derive(Debug)]
pub struct PackageName(pub String);

impl View for PackageName {
    type V = Seq<char>;

    open spec fn view(&self) -> Seq<char> {
        self.0@
    }
}

impl Clone for PackageName {
    fn clone(&self) -> (r: Self)
        ensures
            r@ == self@,
    {
        PackageName(self.0.clone())
    }
}

impl PartialEq for PackageName {
    fn eq(&self, other: &PackageName) -> (r: bool) {
        self.0 == other.0
    }
}

impl PartialEqSpecImpl for PackageName {
    open spec fn obeys_eq_spec() -> bool {
        true
    }

    open spec fn eq_spec(&self, other: &PackageName) -> bool {
        self@ == other@
    }
}

impl Eq for PackageName {

}

impl From<String> for PackageName {
    fn from(name: String) -> (r: PackageName) {
        PackageName(name)
    }
}

impl FromSpecImpl<String> for PackageName {
    open spec fn obeys_from_spec() -> bool {
        true
    }

    open spec fn from_spec(name: String) -> PackageName {
        PackageName(name)
    }
}

impl PackageName {
    /// The name as text.
    pub fn as_str(&self) -> (s: &str)
        ensures
            s@ == self@,
    {
        self.0.as_str()
    }
}

/// The version of a package.
#[derive(Debug)]
pub struct PackageVersion(pub String);

impl View for PackageVersion {
    type V = Seq<char>;

    open spec fn view(&self) -> Seq<char> {
        self.0@
    }
}

impl Clone for PackageVersion {
    fn clone(&self) -> (r: Self)
        ensures
            r@ == self@,
    {
        PackageVersion(self.0.clone())
    }
}

impl PartialEq for PackageVersion {
    fn eq(&self, other: &PackageVersion) -> (r: bool) {
        self.0 == other.0
    }
}

impl PartialEqSpecImpl for PackageVersion {
    open spec fn obeys_eq_spec() -> bool {
        true
    }

    open spec fn eq_spec(&self, other: &PackageVersion) -> bool {
        self@ == other@
    }
}

impl Eq for PackageVersion {

}

impl From<String> for PackageVersion {
    fn from(version: String) -> (r: PackageVersion) {
        PackageVersion(version)
    }
}

impl FromSpecImpl<String> for PackageVersion {
    open spec fn obeys_from_spec() -> bool {
        true
    }

    open spec fn from_spec(version: String) -> PackageVersion {
        PackageVersion(version)
    }
}

impl PackageVersion {
    /// The version as text.
    pub fn as_str(&self) -> (s: &str)
        ensures
            s@ == self@,
    {
        self.0.as_str()
    }
}

} // verus!
