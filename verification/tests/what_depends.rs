use butido::commands::what_depends::{package_depends_on, what_depends};
use butido::package::dependency::{Dependencies, Dependency, DependencyError};
use butido::package::name::{PackageName, PackageVersion};
use butido::package::package::Package;
use butido::repository::Repository;

fn pname(name: &str) -> PackageName {
    PackageName::from(String::from(name))
}

fn pkg(name: &str, version: &str, build: &[&str], runtime: &[&str]) -> Package {
    let mut p = Package::new(
        pname(name),
        PackageVersion::from(String::from(version)),
        String::from("https://example.org"),
        String::from("abc"),
    );
    let deps = |list: &[&str]| {
        list.iter().map(|d| Dependency::from(String::from(*d))).collect::<Vec<_>>()
    };
    p.set_dependencies(Dependencies::new(deps(build), deps(runtime)));
    p
}

fn found_names(repo: &Repository, name: &str, runtime: bool, build: bool) -> Vec<String> {
    what_depends(&pname(name), runtime, build, repo)
        .unwrap()
        .packages
        .iter()
        .map(|p| format!("{}={}", p.name().as_str(), p.version().as_str()))
        .collect()
}

#[test]
fn packages_are_found_by_what_they_depend_on() {
    let repo = Repository::new(vec![
        pkg("app", "1", &["make =4"], &["libc =2"]),
        pkg("tool", "2", &["libc =2"], &[]),
        pkg("libc", "2", &[], &[]),
        pkg("make", "4", &[], &["libc =2"]),
    ]);
    assert_eq!(found_names(&repo, "libc", true, true), vec!["app=1", "make=4", "tool=2"]);
    assert_eq!(found_names(&repo, "libc", true, false), vec!["app=1", "make=4"]);
    assert_eq!(found_names(&repo, "libc", false, true), vec!["tool=2"]);
    assert_eq!(found_names(&repo, "libc", false, false), Vec::<String>::new());
    assert_eq!(found_names(&repo, "make", false, true), vec!["app=1"]);
    assert_eq!(found_names(&repo, "nothing", true, true), Vec::<String>::new());
}

#[test]
fn what_is_printed_are_the_dependencies() {
    let repo = Repository::new(vec![pkg("app", "1", &[], &[])]);
    let flags = what_depends(&pname("x"), true, false, &repo).unwrap().flags;
    assert!(flags.print_dependencies);
    assert!(flags.print_runtime_deps);
    assert!(!flags.print_build_deps);
    assert!(!flags.print_all);
    assert!(!flags.print_sources);
    assert!(!flags.print_patches);
    assert!(!flags.print_env);
    assert!(!flags.print_flags);
    assert!(!flags.print_allowed_images);
    assert!(!flags.print_denied_images);
    assert!(!flags.print_phases);
    assert!(!flags.print_script);
    assert!(!flags.script_line_numbers);
    assert!(!flags.script_highlighting);
}

#[test]
fn only_the_kinds_that_are_looked_at_are_read() {
    let broken_build = pkg("app", "1", &["broken"], &["libc =2"]);
    assert_eq!(
        package_depends_on(&broken_build, &pname("libc"), false, true),
        Ok(true)
    );
    assert_eq!(
        package_depends_on(&broken_build, &pname("libc"), true, true),
        Err(DependencyError::MissingConstraint)
    );
    let broken_runtime = pkg("app", "1", &["libc =2"], &["broken"]);
    assert_eq!(
        package_depends_on(&broken_runtime, &pname("libc"), true, true),
        Ok(true)
    );
    assert_eq!(
        package_depends_on(&broken_runtime, &pname("make"), true, true),
        Err(DependencyError::MissingConstraint)
    );
    let repo = Repository::new(vec![pkg("ok", "1", &[], &[]), broken_runtime]);
    assert_eq!(
        what_depends(&pname("make"), true, true, &repo).unwrap_err(),
        DependencyError::MissingConstraint
    );
}
