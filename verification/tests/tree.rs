use butido::package::dependency::{Dependencies, Dependency, DependencyError};
use butido::package::dependency::PackageVersionConstraint;
use butido::package::name::{PackageName, PackageVersion};
use butido::package::package::Package;
use butido::package::tree::{Tree, TreeError};
use butido::repository::Repository;

fn pname(name: &str) -> PackageName {
    PackageName::from(String::from(name))
}

fn pversion(version: &str) -> PackageVersion {
    PackageVersion::from(String::from(version))
}

fn package(name: &str, version: &str, source_url: &str, source_hash: &str) -> Package {
    Package::new(
        pname(name),
        pversion(version),
        String::from(source_url),
        String::from(source_hash),
    )
}

fn with_runtime(mut pack: Package, dependencies: &[&str]) -> Package {
    let ds = dependencies
        .iter()
        .map(|d| Dependency::from(String::from(*d)))
        .collect::<Vec<_>>();
    pack.set_dependencies(Dependencies::with_runtime_dependencies(ds));
    pack
}

#[test]
fn test_add_package() {
    let mut packages = Vec::new();

    let p1 = {
        let name = "a";
        let vers = "1";
        let pack = package(name, vers, "https://rust-lang.org", "123");
        packages.push(pack.clone());
        pack
    };

    let repo = Repository::new(packages);

    let mut tree = Tree::new();
    let r = tree.add_package(p1, &repo);
    assert!(r.is_ok());
}

#[test]
fn test_add_two_packages() {
    let mut packages = Vec::new();

    let p1 = {
        let name = "a";
        let vers = "1";
        let pack = package(name, vers, "https://rust-lang.org", "123");
        packages.push(pack.clone());
        pack
    };
    let p2 = {
        let name = "b";
        let vers = "2";
        let pack = package(name, vers, "https://rust-lang.org", "124");
        packages.push(pack.clone());
        pack
    };

    let repo = Repository::new(packages);

    let mut tree = Tree::new();
    let r = tree.add_package(p1, &repo);
    assert!(r.is_ok());

    let r = tree.add_package(p2, &repo);
    assert!(r.is_ok());
}

#[test]
fn test_add_two_dependent_packages() {
    let mut packages = Vec::new();

    let mut p1 = {
        let name = "a";
        let vers = "1";
        let pack = package(name, vers, "https://rust-lang.org", "123");
        packages.push(pack.clone());
        pack
    };

    {
        let name = "b";
        let vers = "2";
        let pack = package(name, vers, "https://rust-lang.org", "124");
        packages.push(pack.clone());
    }

    {
        let d = Dependency::from(String::from("b =2"));
        let ds = Dependencies::with_runtime_dependency(d);
        p1.set_dependencies(ds);
    }

    let repo = Repository::new(packages);

    let mut tree = Tree::new();
    let r = tree.add_package(p1, &repo);
    assert!(r.is_ok());
    assert!(tree.packages().iter().all(|p| *p.name() == pname("a")));
    assert!(tree.packages().iter().all(|p| *p.version() == pversion("1")));

    let subtree: Vec<&Tree> = tree.dependencies();
    assert_eq!(subtree.len(), 1);
    let subtree = subtree[0];
    assert!(subtree.packages().iter().all(|p| *p.name() == pname("b")));
    assert!(subtree.packages().iter().all(|p| *p.version() == pversion("2")));
}

fn check_deep_tree(tree: &Tree) {
    assert!(tree.packages().iter().all(|p| *p.name() == pname("p1")));
    assert!(tree.packages().iter().all(|p| *p.version() == pversion("1")));

    let subtrees: Vec<&Tree> = tree.dependencies();
    assert_eq!(subtrees.len(), 1);

    let subtree = subtrees[0];
    assert_eq!(subtree.packages().len(), 2);

    assert!(subtree
        .packages()
        .iter()
        .all(|p| { *p.name() == pname("p2") || *p.name() == pname("p4") }));

    let subsubtrees: Vec<&Tree> = subtree.dependencies();
    assert_eq!(subsubtrees.len(), 2);

    assert!(subsubtrees.iter().any(|st| { st.packages().len() == 1 }));

    assert!(subsubtrees.iter().any(|st| { st.packages().len() == 2 }));

    assert!(subsubtrees
        .iter()
        .any(|st| { st.packages().iter().all(|p| *p.name() == pname("p3")) }));

    assert!(subsubtrees.iter().any(|st| {
        st.packages()
            .iter()
            .all(|p| *p.name() == pname("p5") || *p.name() == pname("p6"))
    }));
}

#[test]
fn test_add_deep_package_tree() {
    let mut packages = Vec::new();

    //
    // Test the following (made up) tree:
    //
    //  p1
    //   - p2
    //     - p3
    //   - p4
    //     - p5
    //     - p6
    //

    let p1 = {
        let pack = with_runtime(
            package("p1", "1", "https://rust-lang.org", "123"),
            &["p2 =2", "p4 =4"],
        );
        packages.push(pack.clone());
        pack
    };

    packages.push(with_runtime(
        package("p2", "2", "https://rust-lang.org", "124"),
        &["p3 =3"],
    ));
    packages.push(package("p3", "3", "https://rust-lang.org", "125"));
    packages.push(with_runtime(
        package("p4", "4", "https://rust-lang.org", "125"),
        &["p5 =5", "p6 =66.6.6"],
    ));
    packages.push(package("p5", "5", "https://rust-lang.org", "129"));
    packages.push(package("p6", "66.6.6", "https://rust-lang.org", "666"));

    let repo = Repository::new(packages);

    let mut tree = Tree::new();
    let r = tree.add_package(p1, &repo);
    assert!(r.is_ok());
    check_deep_tree(&tree);
}

#[test]
fn test_add_deep_package_tree_with_irrelevant_packages() {
    // the same tree as in test_add_deep_package_tree(), but with a bunch of
    // irrelevant packages added to the repository, so that we can be sure
    // that the packages that are actually required are found
    //
    // The irrelevant packages are all packages that already exist, but with
    // different versions

    let mut packages = Vec::new();

    let p1 = {
        let pack = with_runtime(
            package("p1", "1", "https://rust-lang.org", "123"),
            &["p2 =2", "p4 =4"],
        );
        packages.push(pack.clone());
        pack
    };

    packages.push(with_runtime(
        package("p1", "2", "https://rust-lang.org", "123"),
        &["p2 =2", "p4 =5"],
    ));
    packages.push(with_runtime(
        package("p2", "2", "https://rust-lang.org", "124"),
        &["p3 =3"],
    ));
    packages.push(package("p3", "3", "https://rust-lang.org", "125"));
    packages.push(package("p3", "1", "https://rust-lang.org", "128"));
    packages.push(package("p3", "3.1", "https://rust-lang.org", "118"));
    packages.push(with_runtime(
        package("p4", "4", "https://rust-lang.org", "125"),
        &["p5 =5", "p6 =66.6.6"],
    ));
    packages.push(with_runtime(
        package("p4", "5", "https://rust-lang.org", "125"),
        &["p5 =5", "p6 =66.6.8"],
    ));
    packages.push(package("p5", "5", "https://rust-lang.org", "129"));
    packages.push(package("p6", "66.6.6", "https://rust-lang.org", "666"));
    packages.push(package("p6", "66.6.8", "https://rust-lang.org", "666"));

    let repo = Repository::new(packages);

    let mut tree = Tree::new();
    let r = tree.add_package(p1, &repo);
    assert!(r.is_ok());
    check_deep_tree(&tree);
}

#[test]
fn add_package_counts_followed_dependencies() {
    let p1 = with_runtime(package("a", "1", "u", "h"), &["b =2"]);
    let p2 = with_runtime(package("b", "2", "u", "h"), &["c =3"]);
    let p3 = package("c", "3", "u", "h");
    let repo = Repository::new(vec![p1.clone(), p2, p3]);
    let mut tree = Tree::new();
    assert_eq!(tree.add_package(p1, &repo).unwrap(), 2);
}

#[test]
fn diamond_conflict_is_a_duplicate() {
    // a needs b =1 and c; c needs b =2
    let a = with_runtime(package("a", "1", "u", "h"), &["b =1", "c =1"]);
    let b1 = package("b", "1", "u", "h");
    let b2 = package("b", "2", "u", "h");
    let c = with_runtime(package("c", "1", "u", "h"), &["b =2"]);
    let repo = Repository::new(vec![a.clone(), b1, b2, c]);
    let mut tree = Tree::new();
    match tree.add_package(a, &repo) {
        Err(TreeError::DuplicatePackage { name, versions }) => {
            assert_eq!(name, pname("b"));
            assert_eq!(versions, vec![pversion("1"), pversion("2")]);
        }
        other => panic!("expected a duplicate, got {:?}", other),
    }
    assert_eq!(tree.packages().len(), 0);
    assert_eq!(tree.dependencies().len(), 0);
}

#[test]
fn cyclic_dependencies_are_a_duplicate() {
    let a = with_runtime(package("a", "1", "u", "h"), &["b =1"]);
    let b = with_runtime(package("b", "1", "u", "h"), &["a =1"]);
    let repo = Repository::new(vec![a.clone(), b]);
    let mut tree = Tree::new();
    match tree.add_package(a, &repo) {
        Err(TreeError::DuplicatePackage { name, versions }) => {
            assert_eq!(name, pname("a"));
            assert_eq!(versions, vec![pversion("1"), pversion("1")]);
        }
        other => panic!("expected a duplicate, got {:?}", other),
    }
}

#[test]
fn unmet_dependency_is_no_candidate() {
    let a = with_runtime(package("a", "1", "u", "h"), &["b =1"]);
    let b = package("b", "2", "u", "h");
    let repo = Repository::new(vec![a.clone(), b]);
    let mut tree = Tree::new();
    match tree.add_package(a, &repo) {
        Err(TreeError::NoCandidate { name, constraint }) => {
            assert_eq!(name, pname("b"));
            assert_eq!(*constraint.version(), pversion("1"));
        }
        other => panic!("expected no candidate, got {:?}", other),
    }
}

#[test]
fn malformed_dependency_is_reported() {
    for (text, error) in [
        ("b", DependencyError::MissingConstraint),
        (" =1", DependencyError::EmptyName),
        ("b >1", DependencyError::UnsupportedConstraint),
        ("b ", DependencyError::UnsupportedConstraint),
        ("b =", DependencyError::EmptyVersion),
    ] {
        let a = with_runtime(package("a", "1", "u", "h"), &[text]);
        let repo = Repository::new(vec![a.clone()]);
        let mut tree = Tree::new();
        match tree.add_package(a, &repo) {
            Err(TreeError::Dependency(e)) => assert_eq!(e, error),
            other => panic!("expected a dependency error, got {:?}", other),
        }
    }
}

#[test]
fn adding_a_package_twice_is_a_duplicate() {
    let a = package("a", "1", "u", "h");
    let repo = Repository::new(vec![a.clone()]);
    let mut tree = Tree::new();
    assert!(tree.add_package(a.clone(), &repo).is_ok());
    assert!(matches!(
        tree.add_package(a, &repo),
        Err(TreeError::DuplicatePackage { .. })
    ));
    assert_eq!(tree.packages().len(), 1);
}

#[test]
fn has_package_and_depth_agree() {
    let p1 = with_runtime(package("p1", "1", "u", "h"), &["p2 =2", "p4 =4"]);
    let p2 = with_runtime(package("p2", "2", "u", "h"), &["p3 =3"]);
    let p3 = package("p3", "3", "u", "h");
    let p4 = package("p4", "4", "u", "h");
    let other = package("p9", "9", "u", "h");
    let repo = Repository::new(vec![p1.clone(), p2.clone(), p3.clone(), p4.clone()]);
    let mut tree = Tree::new();
    tree.add_package(p1.clone(), &repo).unwrap();

    assert_eq!(tree.package_depth(&p1), Some(0));
    assert_eq!(tree.package_depth(&p2), Some(1));
    assert_eq!(tree.package_depth(&p4), Some(1));
    assert_eq!(tree.package_depth(&p3), Some(2));
    assert_eq!(tree.package_depth(&other), None);
    for p in [&p1, &p2, &p3, &p4, &other] {
        assert_eq!(tree.has_package(p), tree.package_depth(p).is_some());
    }

    // the name decides for has_package, name and version for the depth
    let p3_other = package("p3", "4", "u", "h");
    assert!(tree.has_package(&p3_other));
    assert_eq!(tree.package_depth(&p3_other), None);
}

#[test]
fn package_depth_where_searches_level_by_level() {
    let a = with_runtime(package("a", "1", "u", "h"), &["b =1", "c =1"]);
    let b = with_runtime(package("b", "1", "u", "h"), &["d =1"]);
    let c = package("c", "1", "u", "h");
    let d = package("d", "1", "u", "h");
    let repo = Repository::new(vec![a.clone(), b, c, d]);
    let mut tree = Tree::new();
    tree.add_package(a, &repo).unwrap();
    // d stands at depth 2 below b, c at depth 1: the shallower one is found
    let depth = tree.package_depth_where(|p| *p.name() == pname("d") || *p.name() == pname("c"));
    assert_eq!(depth, Some(1));
    assert_eq!(tree.package_depth_where(|_| false), None);
    assert_eq!(tree.package_depth_where(|_| true), Some(0));
}

#[test]
fn debug_print_indents_by_depth() {
    let a = with_runtime(package("a", "1", "u", "h"), &["b =2"]);
    let b = with_runtime(package("b", "2", "u", "h"), &["c =3"]);
    let c = package("c", "3", "u", "h");
    let repo = Repository::new(vec![a.clone(), b, c]);
    let mut tree = Tree::new();
    tree.add_package(a, &repo).unwrap();
    assert_eq!(
        tree.debug_print(),
        vec![
            String::from(" - a 1"),
            String::from("  - b 2"),
            String::from("    - c 3"),
        ]
    );
}

#[test]
fn a_repository_holds_one_recipe_for_each_name_and_version() {
    let old = package("a", "1", "https://old.example", "1");
    let new = package("a", "1", "https://new.example", "2");
    let repo = Repository::new(vec![package("b", "2", "u", "h"), old, package("a", "0", "u", "h"), new]);
    let listed: Vec<(&str, &str, &str)> = repo
        .packages()
        .iter()
        .map(|p| (p.name().as_str(), p.version().as_str(), p.source_url().as_str()))
        .collect();
    assert_eq!(
        listed,
        vec![("a", "0", "u"), ("a", "1", "https://new.example"), ("b", "2", "u")]
    );

    let repo = Repository::empty()
        .with_package(package("z", "1", "u", "h"))
        .with_package(package("m", "10", "u", "h"))
        .with_package(package("m", "9", "u", "h"))
        .with_package(package("z", "1", "other", "h"));
    let listed: Vec<(&str, &str, &str)> = repo
        .packages()
        .iter()
        .map(|p| (p.name().as_str(), p.version().as_str(), p.source_url().as_str()))
        .collect();
    assert_eq!(listed, vec![("m", "10", "u"), ("m", "9", "u"), ("z", "1", "other")]);
}

#[test]
fn packages_are_found_by_name_and_exact_version() {
    let repo = Repository::new(vec![
        package("p3", "3", "u", "h"),
        package("p3", "3.1", "u", "h"),
        package("p4", "3", "u", "h"),
    ]);
    let constraint = PackageVersionConstraint::exact(pversion("3"));
    let found = repo.find_with_version_constraint(&pname("p3"), &constraint);
    assert_eq!(found.len(), 1);
    assert_eq!(*found[0].version(), pversion("3"));
    assert!(constraint.matches(&pversion("3")));
    assert!(!constraint.matches(&pversion("3.1")));
    let none = PackageVersionConstraint::exact(pversion("9"));
    assert!(repo.find_with_version_constraint(&pname("p3"), &none).is_empty());
    assert!(repo.find_with_version_constraint(&pname("p9"), &constraint).is_empty());
}

#[test]
fn a_package_may_be_built_in_allowed_images_only() {
    let mut p = package("a", "1", "u", "h");
    assert!(p.image_allowed("debian"));
    p.set_denied_images(vec![String::from("alpine")]);
    assert!(p.image_allowed("debian"));
    assert!(!p.image_allowed("alpine"));
    p.set_allowed_images(vec![String::from("debian"), String::from("alpine")]);
    assert!(p.image_allowed("debian"));
    assert!(!p.image_allowed("alpine"));
    assert!(!p.image_allowed("fedora"));
    assert!(p.same_package(&package("a", "1", "other", "x")));
    assert!(!p.same_package(&package("a", "2", "u", "h")));
    assert!(p.same_name(&package("a", "2", "u", "h")));
}
