use butido::filestore::release::ReleaseStore;
use butido::filestore::merged::MergedStores;
use butido::filestore::staging::StagingStore;
use butido::job::job::Job;
use butido::job::resource::JobResource;
use butido::job::runnable::{JobError, RunnableJob};
use butido::package::dependency::{Dependencies, Dependency, DependencyError};
use butido::package::name::{PackageName, PackageVersion};
use butido::package::package::{Package, Phase};
use butido::package::script::{ScriptBuilder, ScriptError, TemplateError};
use butido::source::SourceCache;

fn strings(list: &[&str]) -> Vec<String> {
    list.iter().map(|s| String::from(*s)).collect()
}

fn pkg(name: &str, version: &str, build: &[&str], runtime: &[&str]) -> Package {
    let mut p = Package::new(
        PackageName::from(String::from(name)),
        PackageVersion::from(String::from(version)),
        String::from("https://example.org/src.tar.gz"),
        String::from("deadbeef"),
    );
    let deps = |list: &[&str]| {
        list.iter().map(|d| Dependency::from(String::from(*d))).collect::<Vec<_>>()
    };
    p.set_dependencies(Dependencies::new(deps(build), deps(runtime)));
    p
}

fn with_phases(mut p: Package, phases: &[(&str, &str)]) -> Package {
    p.set_phases(
        phases
            .iter()
            .map(|(name, script)| Phase { name: String::from(*name), script: String::from(*script) })
            .collect(),
    );
    p
}

#[test]
fn a_script_is_the_shebang_and_the_phases_in_declared_order() {
    let p = with_phases(
        pkg("vim", "8.2", &[], &[]),
        &[("build", "make -j4"), ("unpack", "tar xf {{this.name}}-{{this.version}}.tar.gz")],
    );
    let script = ScriptBuilder::new("#!/bin/bash")
        .build(&p, &strings(&["unpack", "patch", "build"]))
        .unwrap();
    assert_eq!(script.0, "#!/bin/bash\ntar xf vim-8.2.tar.gz\nmake -j4\n");
}

#[test]
fn rendering_twice_gives_the_same_script() {
    let p = with_phases(pkg("vim", "8.2", &[], &[]), &[("build", "echo {{this.source_url}} {{this.source_hash}}")]);
    let first = ScriptBuilder::new("#!/bin/sh").build(&p, &strings(&["build"])).unwrap();
    let second = ScriptBuilder::new("#!/bin/sh").build(&p.clone(), &strings(&["build"])).unwrap();
    assert_eq!(first.0, second.0);
    assert_eq!(first.0, "#!/bin/sh\necho https://example.org/src.tar.gz deadbeef\n");
}

#[test]
fn a_package_without_phases_has_only_the_shebang() {
    let p = pkg("vim", "8.2", &[], &[]);
    assert_eq!(ScriptBuilder::new("#!/bin/sh").build(&p, &strings(&["build"])).unwrap().0, "#!/bin/sh\n");
    assert_eq!(ScriptBuilder::new("").build(&p, &Vec::new()).unwrap().0, "\n");
}

#[test]
fn a_phase_that_is_not_declared_is_unknown() {
    let p = with_phases(pkg("vim", "8.2", &[], &[]), &[("build", "make"), ("deploy", "scp"), ("x", "y")]);
    match ScriptBuilder::new("#!/bin/sh").build(&p, &strings(&["build"])) {
        Err(ScriptError::UnknownPhase(name)) => assert_eq!(name, "deploy"),
        other => panic!("{:?}", other),
    }
}

#[test]
fn templates_must_be_well_formed() {
    for (fragment, error) in [
        ("echo {{this.name", TemplateError::Unterminated),
        ("echo {{", TemplateError::Unterminated),
        ("echo {{this.nam}}", TemplateError::UnknownVariable),
        ("echo {{ this.name }}", TemplateError::UnknownVariable),
        ("echo {{}}", TemplateError::UnknownVariable),
    ] {
        let p = with_phases(pkg("vim", "8.2", &[], &[]), &[("build", fragment)]);
        match ScriptBuilder::new("#!/bin/sh").build(&p, &strings(&["build"])) {
            Err(ScriptError::TemplateError(e)) => assert_eq!(e, error, "{:?}", fragment),
            other => panic!("{:?}", other),
        }
    }
    let p = with_phases(pkg("vim", "8.2", &[], &[]), &[("build", "a { b } c }} {x{{this.name}}}")]);
    assert_eq!(
        ScriptBuilder::new("#!").build(&p, &strings(&["build"])).unwrap().0,
        "#!\na { b } c }} {xvim}\n"
    );
}

fn stores() -> (StagingStore, ReleaseStore) {
    let staging = StagingStore::load(
        "/staging",
        true,
        &strings(&["out/libc-2.tar.gz", "make-4.tar.gz", "libc-2.tar.gz"]),
    )
    .unwrap();
    let release = ReleaseStore::load("/release", true, &strings(&["zlib-1.tar.gz", "aaa/libc-2.tar.gz"])).unwrap();
    (staging, release)
}

fn job_for(package: Package) -> Job {
    Job::new(
        42,
        package,
        String::from("#!/bin/sh"),
        String::from("debian:bullseye"),
        strings(&["build"]),
        Vec::new(),
    )
}

fn artifact_paths(resources: &Vec<JobResource>) -> Vec<&str> {
    resources
        .iter()
        .map(|r| r.artifact().expect("an artifact").path().as_str())
        .collect()
}

#[test]
fn resources_are_build_dependencies_then_runtime_dependencies() {
    let (staging, release) = stores();
    let merged = MergedStores::new(&release, &staging);
    let package = with_phases(
        pkg("app", "1", &["make =4", "zlib =1"], &["libc =2"]),
        &[("build", "make {{this.name}}")],
    );
    let runnable = RunnableJob::build_from_job(
        job_for(package),
        &merged,
        &SourceCache::new(String::from("/sources")),
    )
    .unwrap();
    assert_eq!(runnable.uuid(), 42);
    assert_eq!(runnable.package().name().as_str(), "app");
    assert_eq!(runnable.image(), "debian:bullseye");
    assert_eq!(runnable.script().0, "#!/bin/sh\nmake app\n");
    assert_eq!(runnable.resources().len(), 3);
    assert_eq!(
        artifact_paths(runnable.resources()),
        vec!["make-4.tar.gz", "zlib-1.tar.gz", "aaa/libc-2.tar.gz"]
    );
    assert_eq!(runnable.ambiguous(), &vec![false, false, true]);
    assert_eq!(runnable.package_source().path, "/sources/app-1");
}

#[test]
fn a_dependency_that_is_met_twice_takes_the_first_by_path() {
    let (staging, release) = stores();
    let merged = MergedStores::new(&release, &staging);
    let (resource, ambiguous) =
        RunnableJob::build_resource(&Dependency::from(String::from("libc =2")), &merged).unwrap();
    assert_eq!(resource.artifact().unwrap().path(), "aaa/libc-2.tar.gz");
    assert!(resource.env().is_none());
    assert!(ambiguous);
    let (resource, ambiguous) =
        RunnableJob::build_resource(&Dependency::from(String::from("make =4")), &merged).unwrap();
    assert_eq!(resource.artifact().unwrap().path(), "make-4.tar.gz");
    assert!(!ambiguous);
}

#[test]
fn a_dependency_that_is_not_in_the_stores_is_missing() {
    let (staging, release) = stores();
    let merged = MergedStores::new(&release, &staging);
    let cache = SourceCache::new(String::from("/sources"));
    match RunnableJob::build_from_job(job_for(pkg("app", "1", &["make =4"], &["libc =3"])), &merged, &cache) {
        Err(JobError::MissingDependency { name, version }) => {
            assert_eq!(name, "libc");
            assert_eq!(version, "3");
        }
        other => panic!("{:?}", other),
    }
    // the build dependencies are looked for first
    match RunnableJob::build_from_job(job_for(pkg("app", "1", &["gcc =10"], &["libc"])), &merged, &cache) {
        Err(JobError::MissingDependency { name, .. }) => assert_eq!(name, "gcc"),
        other => panic!("{:?}", other),
    }
    match RunnableJob::build_from_job(job_for(pkg("app", "1", &["make =4"], &["libc"])), &merged, &cache) {
        Err(JobError::Dependency(e)) => assert_eq!(e, DependencyError::MissingConstraint),
        other => panic!("{:?}", other),
    }
    // the script is built before anything is looked for
    let broken = with_phases(pkg("app", "1", &["gcc =10"], &[]), &[("other", "x")]);
    match RunnableJob::build_from_job(job_for(broken), &merged, &cache) {
        Err(JobError::Script(ScriptError::UnknownPhase(name))) => assert_eq!(name, "other"),
        other => panic!("{:?}", other),
    }
}

#[test]
fn a_job_without_dependencies_has_no_resources() {
    let (staging, release) = stores();
    let merged = MergedStores::new(&release, &staging);
    let runnable = RunnableJob::build_from_job(
        job_for(pkg("app", "1", &[], &[])),
        &merged,
        &SourceCache::new(String::from("/sources/")),
    )
    .unwrap();
    assert!(runnable.resources().is_empty());
    assert_eq!(runnable.package_source().path, "/sources/app-1");
    assert_eq!(runnable.source_cache().source_for(runnable.package()).path, "/sources/app-1");
}

#[test]
fn a_resource_is_a_variable_or_an_artifact() {
    let variable = JobResource::Environment { name: String::from("CC"), value: String::from("gcc") };
    let (name, value) = variable.env().unwrap();
    assert_eq!(name, "CC");
    assert_eq!(value, "gcc");
    assert!(variable.artifact().is_none());
}

#[test]
fn a_chain_hands_each_job_what_its_package_depends_on() {
    // a needs b, and b needs c, both to run
    let staging = StagingStore::load("/staging", true, &strings(&["c-3.tar.gz", "b-2.tar.gz"])).unwrap();
    let release = ReleaseStore::load("/release", true, &Vec::new()).unwrap();
    let merged = MergedStores::new(&release, &staging);
    let cache = SourceCache::new(String::from("/sources"));
    let a = RunnableJob::build_from_job(job_for(pkg("a", "1", &[], &["b =2"])), &merged, &cache).unwrap();
    assert_eq!(artifact_paths(a.resources()), vec!["b-2.tar.gz"]);
    let b = RunnableJob::build_from_job(job_for(pkg("b", "2", &[], &["c =3"])), &merged, &cache).unwrap();
    assert_eq!(artifact_paths(b.resources()), vec!["c-3.tar.gz"]);
    let c = RunnableJob::build_from_job(job_for(pkg("c", "3", &[], &[])), &merged, &cache).unwrap();
    assert!(c.resources().is_empty());
}
