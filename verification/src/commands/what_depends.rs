//! `what-depends`: the packages that depend on a package.

use crate::package::dependency::{Dependency, DependencyError};
use crate::package::name::PackageName;
use crate::package::package::{constraint_views, parse_all, parse_dependencies, Package, PackageView};
use crate::repository::{package_ref_views, Repository};
use vstd::prelude::*;

verus! {

/// What is printed of each package.
#[derive(Debug, Clone, Copy, PartialEq, Eq, Structural)]
pub struct PackagePrintFlags {
    pub print_all: bool,
    pub print_runtime_deps: bool,
    pub print_build_deps: bool,
    pub print_sources: bool,
    pub print_dependencies: bool,
    pub print_patches: bool,
    pub print_env: bool,
    pub print_flags: bool,
    pub print_allowed_images: bool,
    pub print_denied_images: bool,
    pub print_phases: bool,
    pub print_script: bool,
    pub script_line_numbers: bool,
    pub script_highlighting: bool,
}

/// What `what-depends` prints: the dependencies of the packages, of the
/// kinds that were asked for, and nothing else.
pub open spec fn spec_print_flags(print_runtime_deps: bool, print_build_deps: bool) -> PackagePrintFlags {
    PackagePrintFlags {
        print_all: false,
        print_runtime_deps,
        print_build_deps,
        print_sources: false,
        print_dependencies: true,
        print_patches: false,
        print_env: false,
        print_flags: false,
        print_allowed_images: false,
        print_denied_images: false,
        print_phases: false,
        print_script: false,
        script_line_numbers: false,
        script_highlighting: false,
    }
}

/// Whether one of the dependencies is of the name.
pub open spec fn names_package(parsed: Seq<(Seq<char>, Seq<char>)>, name: Seq<char>) -> bool {
    exists|i: int| 0 <= i < parsed.len() && (#[trigger] parsed[i]).0 == name
}

/// Whether one of some specifiers is a dependency of the name. A specifier
/// that reads as no dependency is an error.
pub open spec fn any_named(specifiers: Seq<Seq<char>>, name: Seq<char>) -> Result<bool, DependencyError> {
    match parse_all(specifiers) {
        Err(e) => Err(e),
        Ok(parsed) => Ok(names_package(parsed, name)),
    }
}

/// Whether a package depends on the package of the name, by a dependency of
/// one of the kinds that are looked at. The build dependencies are looked
/// at first, and only the kinds that are looked at are read.
pub open spec fn depends_on(package: PackageView, name: Seq<char>, build: bool, runtime: bool) -> Result<
    bool,
    DependencyError,
> {
    let by_build: Result<bool, DependencyError> = if build {
        any_named(package.build, name)
    } else {
        Ok(false)
    };
    match by_build {
        Err(e) => Err(e),
        Ok(true) => Ok(true),
        Ok(false) => if runtime {
            any_named(package.runtime, name)
        } else {
            Ok(false)
        },
    }
}

/// The packages that depend on the package of the name, in order, or the
/// first error of reading their dependencies.
pub open spec fn spec_what_depends(packages: Seq<PackageView>, name: Seq<char>, build: bool, runtime: bool) -> Result<
    Seq<PackageView>,
    DependencyError,
>
    decreases packages.len(),
{
    if packages.len() == 0 {
        Ok(Seq::empty())
    } else {
        match spec_what_depends(packages.drop_last(), name, build, runtime) {
            Err(e) => Err(e),
            Ok(found) => match depends_on(packages.last(), name, build, runtime) {
                Err(e) => Err(e),
                Ok(true) => Ok(found.push(packages.last())),
                Ok(false) => Ok(found),
            },
        }
    }
}

/// An error among the first packages is the error of them all.
pub proof fn lemma_what_depends_error(
    packages: Seq<PackageView>,
    name: Seq<char>,
    build: bool,
    runtime: bool,
    n: int,
)
    requires
        0 <= n <= packages.len(),
        spec_what_depends(packages.take(n), name, build, runtime) is Err,
    ensures
        spec_what_depends(packages, name, build, runtime) == spec_what_depends(
            packages.take(n),
            name,
            build,
            runtime,
        ),
    decreases packages.len(),
{
    if n == packages.len() {
        assert(packages.take(n) =~= packages);
    } else {
        assert(packages.drop_last().take(n) =~= packages.take(n));
        lemma_what_depends_error(packages.drop_last(), name, build, runtime, n);
    }
}

fn check_any_named(dependencies: &Vec<Dependency>, name: &PackageName) -> (r: Result<
    bool,
    DependencyError,
>)
    ensures
        r == any_named(crate::package::dependency::specifiers(dependencies@), name@),
{
    let parsed = match parse_dependencies(dependencies) {
        Ok(parsed) => parsed,
        Err(e) => {
            return Err(e);
        },
    };
    let mut i: usize = 0;
    while i < parsed.len()
        invariant
            i <= parsed.len(),
            parse_all(crate::package::dependency::specifiers(dependencies@)) == Ok::<
                Seq<(Seq<char>, Seq<char>)>,
                DependencyError,
            >(constraint_views(parsed@)),
            forall|j: int| 0 <= j < i ==> (#[trigger] constraint_views(parsed@)[j]).0 != name@,
        decreases parsed.len() - i,
    {
        if parsed[i].0 == *name {
            assert(constraint_views(parsed@)[i as int].0 == name@);
            return Ok(true);
        }
        i = i + 1;
    }
    Ok(false)
}

/// Tells whether a package depends on the package of the name.
pub fn package_depends_on(package: &Package, name: &PackageName, build: bool, runtime: bool) -> (r:
    Result<bool, DependencyError>)
    ensures
        r == depends_on(package@, name@, build, runtime),
{
    if build {
        match check_any_named(package.dependencies().build(), name) {
            Err(e) => {
                return Err(e);
            },
            Ok(true) => {
                return Ok(true);
            },
            Ok(false) => {},
        }
    }
    if runtime {
        check_any_named(package.dependencies().runtime(), name)
    } else {
        Ok(false)
    }
}

/// What `what-depends` found, and what to print of it.
#[derive(Debug)]
pub struct WhatDepends<'a> {
    pub packages: Vec<&'a Package>,
    pub flags: PackagePrintFlags,
}

/// Finds the packages of the repository that depend on the package of the
/// name, by its build or runtime dependencies as asked for, and says what
/// to print of them.
pub fn what_depends<'a>(
    package_name: &PackageName,
    print_runtime_deps: bool,
    print_build_deps: bool,
    repo: &'a Repository,
) -> (r: Result<WhatDepends<'a>, DependencyError>)
    ensures
        match r {
            Ok(found) => spec_what_depends(
                repo@,
                package_name@,
                print_build_deps,
                print_runtime_deps,
            ) == Ok::<Seq<PackageView>, DependencyError>(package_ref_views(found.packages@))
                && found.flags == spec_print_flags(print_runtime_deps, print_build_deps),
            Err(e) => spec_what_depends(repo@, package_name@, print_build_deps, print_runtime_deps)
                == Err::<Seq<PackageView>, DependencyError>(e),
        },
{
    let all = repo.packages();
    let mut packages: Vec<&'a Package> = Vec::new();
    let mut i: usize = 0;
    proof {
        assert(repo@.take(0) =~= Seq::<PackageView>::empty());
        assert(package_ref_views(packages@) =~= Seq::<PackageView>::empty());
    }
    while i < all.len()
        invariant
            i <= all.len(),
            crate::repository::package_views(all@) == repo@,
            spec_what_depends(repo@.take(i as int), package_name@, print_build_deps, print_runtime_deps)
                == Ok::<Seq<PackageView>, DependencyError>(package_ref_views(packages@)),
        decreases all.len() - i,
    {
        proof {
            assert(repo@.take(i as int + 1).drop_last() =~= repo@.take(i as int));
            assert(repo@.take(i as int + 1).last() == all@[i as int]@);
        }
        let ghost before = package_ref_views(packages@);
        match package_depends_on(&all[i], package_name, print_build_deps, print_runtime_deps) {
            Err(e) => {
                proof {
                    lemma_what_depends_error(
                        repo@,
                        package_name@,
                        print_build_deps,
                        print_runtime_deps,
                        i as int + 1,
                    );
                }
                return Err(e);
            },
            Ok(true) => {
                packages.push(&all[i]);
                proof {
                    assert(package_ref_views(packages@) =~= before.push(all@[i as int]@));
                }
            },
            Ok(false) => {},
        }
        i = i + 1;
    }
    proof {
        assert(repo@.take(i as int) =~= repo@);
    }
    Ok(
        WhatDepends {
            packages,
            flags: PackagePrintFlags {
                print_all: false,
                print_runtime_deps,
                print_build_deps,
                print_sources: false,
                print_dependencies: true,
                print_patches: false,
                print_env: false,
                print_flags: false,
                print_allowed_images: false,
                print_denied_images: false,
                print_phases: false,
                print_script: false,
                script_line_numbers: false,
                script_highlighting: false,
            },
        },
    )
}

} // verus!
