//! What a package needs: textual specifiers of a name and a constraint on
//! the version.

use crate::package::name::{PackageName, PackageVersion};
use crate::util::text::{split_once, text_split_once};
use vstd::prelude::*;
use vstd::string::{StrSliceExecFns, StringExecFns};

verus! {

/// A constraint on the version of a package: the version itself.
#[derive(Debug)]
pub struct PackageVersionConstraint {
    version: PackageVersion,
}

impl View for PackageVersionConstraint {
    type V = Seq<char>;

    /// The version that the constraint asks for.
    closed spec fn view(&self) -> Seq<char> {
        self.version@
    }
}

impl Clone for PackageVersionConstraint {
    fn clone(&self) -> (r: Self)
        ensures
            r@ == self@,
    {
        PackageVersionConstraint { version: self.version.clone() }
    }
}

impl PackageVersionConstraint {
    /// The constraint that only `version` meets.
    pub fn exact(version: PackageVersion) -> (r: PackageVersionConstraint)
        ensures
            r@ == version@,
    {
        PackageVersionConstraint { version }
    }

    /// The version that the constraint asks for.
    pub fn version(&self) -> (v: &PackageVersion)
        ensures
            v@ == self@,
    {
        &self.version
    }

    /// Whether `version` meets the constraint.
    pub fn matches(&self, version: &PackageVersion) -> (r: bool)
        ensures
            r == (version@ == self@),
    {
        self.version == *version
    }
}

/// Why a specifier is no dependency.
#[derive(Debug, Clone, Copy, PartialEq, Eq, Structural)]
pub enum DependencyError {
    /// No blank parts a name from a constraint.
    MissingConstraint,
    /// Nothing stands before the blank.
    EmptyName,
    /// The constraint does not begin with `=`.
    UnsupportedConstraint,
    /// Nothing stands behind the `=`.
    EmptyVersion,
}

/// What a specifier reads as: a name, a blank, `=` and a version, neither
/// name nor version being empty. The parts are the name and the version.
pub open spec fn spec_parse_dependency(text: Seq<char>) -> Result<(Seq<char>, Seq<char>), DependencyError> {
    match split_once(text, ' ') {
        None => Err(DependencyError::MissingConstraint),
        Some((name, constraint)) => if name.len() == 0 {
            Err(DependencyError::EmptyName)
        } else if constraint.len() == 0 || constraint[0] != '=' {
            Err(DependencyError::UnsupportedConstraint)
        } else if constraint.len() == 1 {
            Err(DependencyError::EmptyVersion)
        } else {
            Ok((name, constraint.skip(1)))
        },
    }
}

/// A dependency as a recipe writes it, such as `libfoo =1.2`.
#[derive(Debug)]
pub struct Dependency(pub String);

impl View for Dependency {
    type V = Seq<char>;

    open spec fn view(&self) -> Seq<char> {
        self.0@
    }
}

impl Clone for Dependency {
    fn clone(&self) -> (r: Self)
        ensures
            r@ == self@,
    {
        Dependency(self.0.clone())
    }
}

impl From<String> for Dependency {
    fn from(text: String) -> (r: Dependency) {
        Dependency(text)
    }
}

impl vstd::std_specs::convert::FromSpecImpl<String> for Dependency {
    open spec fn obeys_from_spec() -> bool {
        true
    }

    open spec fn from_spec(text: String) -> Dependency {
        Dependency(text)
    }
}

impl Dependency {
    /// Reads the specifier as a name and a constraint on the version.
    pub fn parse_as_name_and_version(&self) -> (r: Result<
        (PackageName, PackageVersionConstraint),
        DependencyError,
    >)
        ensures
            match r {
                Ok((name, constraint)) => spec_parse_dependency(self@) == Ok::<
                    (Seq<char>, Seq<char>),
                    DependencyError,
                >((name@, constraint@)),
                Err(e) => spec_parse_dependency(self@) == Err::<
                    (Seq<char>, Seq<char>),
                    DependencyError,
                >(e),
            },
    {
        let (name, constraint) = match text_split_once(self.0.as_str(), ' ') {
            Some(parts) => parts,
            None => {
                return Err(DependencyError::MissingConstraint);
            },
        };
        if name.as_str().unicode_len() == 0 {
            return Err(DependencyError::EmptyName);
        }
        let len = constraint.as_str().unicode_len();
        if len == 0 || constraint.as_str().get_char(0) != '=' {
            return Err(DependencyError::UnsupportedConstraint);
        }
        if len == 1 {
            return Err(DependencyError::EmptyVersion);
        }
        let version = String::from_str(constraint.as_str().substring_char(1, len));
        proof {
            assert(constraint@.subrange(1, len as int) =~= constraint@.skip(1));
        }
        Ok((PackageName(name), PackageVersionConstraint::exact(PackageVersion(version))))
    }
}

/// The dependencies of a package: what must be there to build it, and what
/// must be there to run what was built.
#[derive(Debug)]
pub struct Dependencies {
    build: Vec<Dependency>,
    runtime: Vec<Dependency>,
}

/// The texts of some dependencies.
pub open spec fn specifiers(dependencies: Seq<Dependency>) -> Seq<Seq<char>> {
    dependencies.map_values(|d: Dependency| d@)
}

/// A copy of some dependencies.
pub fn copy_dependencies(dependencies: &Vec<Dependency>) -> (r: Vec<Dependency>)
    ensures
        specifiers(r@) == specifiers(dependencies@),
{
    let mut r: Vec<Dependency> = Vec::new();
    let mut i: usize = 0;
    while i < dependencies.len()
        invariant
            i <= dependencies.len(),
            r@.len() == i,
            forall|j: int| 0 <= j < i ==> (#[trigger] r@[j])@ == dependencies@[j]@,
        decreases dependencies.len() - i,
    {
        r.push(dependencies[i].clone());
        i = i + 1;
    }
    proof {
        assert(specifiers(r@) =~= specifiers(dependencies@));
    }
    r
}

impl Dependencies {
    /// The build dependencies, in the order of the recipe.
    pub closed spec fn spec_build(&self) -> Seq<Seq<char>> {
        specifiers(self.build@)
    }

    /// The runtime dependencies, in the order of the recipe.
    pub closed spec fn spec_runtime(&self) -> Seq<Seq<char>> {
        specifiers(self.runtime@)
    }

    /// No dependencies.
    pub fn empty() -> (r: Dependencies)
        ensures
            r.spec_build() == Seq::<Seq<char>>::empty(),
            r.spec_runtime() == Seq::<Seq<char>>::empty(),
    {
        let r = Dependencies { build: Vec::new(), runtime: Vec::new() };
        proof {
            assert(r.spec_build() =~= Seq::<Seq<char>>::empty());
            assert(r.spec_runtime() =~= Seq::<Seq<char>>::empty());
        }
        r
    }

    /// The dependencies of a recipe.
    pub fn new(build: Vec<Dependency>, runtime: Vec<Dependency>) -> (r: Dependencies)
        ensures
            r.spec_build() == specifiers(build@),
            r.spec_runtime() == specifiers(runtime@),
    {
        Dependencies { build, runtime }
    }

    /// One runtime dependency and nothing else.
    pub fn with_runtime_dependency(dependency: Dependency) -> (r: Dependencies)
        ensures
            r.spec_build() == Seq::<Seq<char>>::empty(),
            r.spec_runtime() == seq![dependency@],
    {
        let r = Dependencies { build: Vec::new(), runtime: vec![dependency] };
        proof {
            assert(r.spec_build() =~= Seq::<Seq<char>>::empty());
            assert(r.spec_runtime() =~= seq![dependency@]);
        }
        r
    }

    /// Some runtime dependencies and nothing else.
    pub fn with_runtime_dependencies(dependencies: Vec<Dependency>) -> (r: Dependencies)
        ensures
            r.spec_build() == Seq::<Seq<char>>::empty(),
            r.spec_runtime() == specifiers(dependencies@),
    {
        let r = Dependencies { build: Vec::new(), runtime: dependencies };
        proof {
            assert(r.spec_build() =~= Seq::<Seq<char>>::empty());
        }
        r
    }

    /// The build dependencies.
    pub fn build(&self) -> (r: &Vec<Dependency>)
        ensures
            specifiers(r@) == self.spec_build(),
    {
        &self.build
    }

    /// The runtime dependencies.
    pub fn runtime(&self) -> (r: &Vec<Dependency>)
        ensures
            specifiers(r@) == self.spec_runtime(),
    {
        &self.runtime
    }
}

impl Clone for Dependencies {
    fn clone(&self) -> (r: Self)
        ensures
            r.spec_build() == self.spec_build(),
            r.spec_runtime() == self.spec_runtime(),
    {
        Dependencies {
            build: copy_dependencies(&self.build),
            runtime: copy_dependencies(&self.runtime),
        }
    }
}

} // verus!
