//! A job that can be run: its script is built and what it depends on is
//! found in the stores.

use crate::filestore::artifact::{Artifact, ArtifactView};
use crate::filestore::merged::{merged_artifacts, MergedStores};
use crate::filestore::store::artifact_ref_views;
use crate::job::job::Job;
use crate::job::resource::{resource_views, JobResource, JobResourceView};
use crate::package::dependency::{spec_parse_dependency, specifiers, Dependency, DependencyError};
use crate::package::package::{Package, PackageView};
use crate::package::script::{spec_script, Script, ScriptBuilder, ScriptError, ScriptErrorView};
use crate::source::{spec_source_path, SourceCache, SourceEntry};
use crate::util::order::{compare_str, str_order, Order};
use crate::util::text::texts;
use vstd::prelude::*;

verus! {

/// Why a job cannot be run.
#[derive(Debug)]
pub enum JobError {
    /// The script could not be built.
    Script(ScriptError),
    /// A specifier of the package reads as no dependency.
    Dependency(DependencyError),
    /// The stores hold no artifact of this package and version.
    MissingDependency { name: String, version: String },
}

/// The mathematical value of a `JobError`.
pub enum JobErrorView {
    Script(ScriptErrorView),
    Dependency(DependencyError),
    MissingDependency { name: Seq<char>, version: Seq<char> },
}

impl View for JobError {
    type V = JobErrorView;

    open spec fn view(&self) -> JobErrorView {
        match *self {
            JobError::Script(e) => JobErrorView::Script(e@),
            JobError::Dependency(e) => JobErrorView::Dependency(e),
            JobError::MissingDependency { name, version } => JobErrorView::MissingDependency {
                name: name@,
                version: version@,
            },
        }
    }
}

/// The first of some artifacts once they are sorted by path: the one of
/// the smallest path, and of those the one that came first.
pub open spec fn min_by_path(artifacts: Seq<ArtifactView>) -> ArtifactView
    decreases artifacts.len(),
{
    if artifacts.len() <= 1 {
        artifacts[0]
    } else {
        let best = min_by_path(artifacts.drop_last());
        if str_order(artifacts.last().path, best.path) == Order::Less {
            artifacts.last()
        } else {
            best
        }
    }
}

/// The artifact that a dependency is met by, and whether the stores hold
/// more than one that could meet it.
pub open spec fn spec_resource(staging: Seq<ArtifactView>, release: Seq<ArtifactView>, dependency: Seq<char>) -> Result<
    (ArtifactView, bool),
    JobErrorView,
> {
    match spec_parse_dependency(dependency) {
        Err(e) => Err(JobErrorView::Dependency(e)),
        Ok((name, version)) => {
            let found = merged_artifacts(staging, release, name, version);
            if found.len() == 0 {
                Err(JobErrorView::MissingDependency { name, version })
            } else {
                Ok((min_by_path(found), found.len() > 1))
            }
        },
    }
}

/// The artifacts that some dependencies are met by, in order, or why the
/// first that is not met is not.
pub open spec fn spec_resources(
    staging: Seq<ArtifactView>,
    release: Seq<ArtifactView>,
    dependencies: Seq<Seq<char>>,
) -> Result<Seq<(ArtifactView, bool)>, JobErrorView>
    decreases dependencies.len(),
{
    if dependencies.len() == 0 {
        Ok(Seq::empty())
    } else {
        match spec_resources(staging, release, dependencies.drop_last()) {
            Err(e) => Err(e),
            Ok(found) => match spec_resource(staging, release, dependencies.last()) {
                Err(e) => Err(e),
                Ok(resource) => Ok(found.push(resource)),
            },
        }
    }
}

/// An error among the first dependencies is the error of them all.
pub proof fn lemma_resources_error(
    staging: Seq<ArtifactView>,
    release: Seq<ArtifactView>,
    dependencies: Seq<Seq<char>>,
    n: int,
)
    requires
        0 <= n <= dependencies.len(),
        spec_resources(staging, release, dependencies.take(n)) is Err,
    ensures
        spec_resources(staging, release, dependencies) == spec_resources(
            staging,
            release,
            dependencies.take(n),
        ),
    decreases dependencies.len(),
{
    if n == dependencies.len() {
        assert(dependencies.take(n) =~= dependencies);
    } else {
        assert(dependencies.drop_last().take(n) =~= dependencies.take(n));
        lemma_resources_error(staging, release, dependencies.drop_last(), n);
    }
}

/// The artifacts that two lists of dependencies are met by are those of
/// the first list, then those of the second, and the first error is that
/// of the first list if it has one.
pub proof fn lemma_resources_concat(
    staging: Seq<ArtifactView>,
    release: Seq<ArtifactView>,
    first: Seq<Seq<char>>,
    second: Seq<Seq<char>>,
)
    ensures
        spec_resources(staging, release, first + second) == match spec_resources(
            staging,
            release,
            first,
        ) {
            Err(e) => Err(e),
            Ok(found) => match spec_resources(staging, release, second) {
                Err(e) => Err(e),
                Ok(more) => Ok(found + more),
            },
        },
    decreases second.len(),
{
    if second.len() == 0 {
        assert(first + second =~= first);
        if spec_resources(staging, release, first) is Ok {
            let found = spec_resources(staging, release, first)->Ok_0;
            assert(found + Seq::<(ArtifactView, bool)>::empty() =~= found);
        }
    } else {
        assert((first + second).drop_last() =~= first + second.drop_last());
        lemma_resources_concat(staging, release, first, second.drop_last());
        if spec_resources(staging, release, first) is Ok && spec_resources(
            staging,
            release,
            second.drop_last(),
        ) is Ok && spec_resource(staging, release, second.last()) is Ok {
            let found = spec_resources(staging, release, first)->Ok_0;
            let more = spec_resources(staging, release, second.drop_last())->Ok_0;
            let last = spec_resource(staging, release, second.last())->Ok_0;
            assert((found + more).push(last) =~= found + more.push(last));
        }
    }
}

/// Every dependency that is met is met by one artifact.
pub proof fn lemma_resources_len(
    staging: Seq<ArtifactView>,
    release: Seq<ArtifactView>,
    dependencies: Seq<Seq<char>>,
)
    requires
        spec_resources(staging, release, dependencies) is Ok,
    ensures
        spec_resources(staging, release, dependencies)->Ok_0.len() == dependencies.len(),
    decreases dependencies.len(),
{
    if dependencies.len() > 0 {
        lemma_resources_len(staging, release, dependencies.drop_last());
    }
}

/// The artifacts as resources.
pub open spec fn as_resources(found: Seq<(ArtifactView, bool)>) -> Seq<JobResourceView> {
    found.map_values(|f: (ArtifactView, bool)| JobResourceView::Artifact(f.0))
}

/// Which of the dependencies more than one artifact could meet.
pub open spec fn as_ambiguous(found: Seq<(ArtifactView, bool)>) -> Seq<bool> {
    found.map_values(|f: (ArtifactView, bool)| f.1)
}

/// A job with everything that it needs to run.
#[derive(Debug)]
pub struct RunnableJob {
    uuid: u128,
    package: Package,
    image: String,
    source_cache: SourceCache,
    script: Script,
    resources: Vec<JobResource>,
    ambiguous: Vec<bool>,
}

/// The mathematical value of a runnable job.
pub struct RunnableJobView {
    pub uuid: u128,
    pub package: PackageView,
    pub image: Seq<char>,
    pub source_root: Seq<char>,
    pub script: Seq<char>,
    pub resources: Seq<JobResourceView>,
    pub ambiguous: Seq<bool>,
}

impl View for RunnableJob {
    type V = RunnableJobView;

    closed spec fn view(&self) -> RunnableJobView {
        RunnableJobView {
            uuid: self.uuid,
            package: self.package@,
            image: self.image@,
            source_root: self.source_cache.root(),
            script: self.script@,
            resources: resource_views(self.resources@),
            ambiguous: self.ambiguous@,
        }
    }
}

/// What building a runnable job gives: the job with its script and, as its
/// resources, the artifacts that meet its build dependencies, then those
/// that meet its runtime dependencies. The script is built first.
pub open spec fn spec_build_from_job(
    job: Job,
    staging: Seq<ArtifactView>,
    release: Seq<ArtifactView>,
    source_root: Seq<char>,
) -> Result<RunnableJobView, JobErrorView> {
    match spec_script(job.script_shebang@, job.package@, texts(job.script_phases@)) {
        Err(e) => Err(JobErrorView::Script(e)),
        Ok(script) => match spec_resources(
            staging,
            release,
            job.package@.build + job.package@.runtime,
        ) {
            Err(e) => Err(e),
            Ok(found) => Ok(
                RunnableJobView {
                    uuid: job.uuid,
                    package: job.package@,
                    image: job.image@,
                    source_root,
                    script,
                    resources: as_resources(found),
                    ambiguous: as_ambiguous(found),
                },
            ),
        },
    }
}

/// Picks the first of some artifacts once they are sorted by path.
fn pick_first<'a>(found: &Vec<&'a Artifact>) -> (r: &'a Artifact)
    requires
        found@.len() > 0,
    ensures
        r@ == min_by_path(artifact_ref_views(found@)),
{
    let mut best: &'a Artifact = found[0];
    let mut i: usize = 1;
    proof {
        assert(artifact_ref_views(found@).take(1)[0] == found@[0]@);
    }
    while i < found.len()
        invariant
            1 <= i <= found.len(),
            best@ == min_by_path(artifact_ref_views(found@).take(i as int)),
        decreases found.len() - i,
    {
        proof {
            assert(artifact_ref_views(found@).take(i as int + 1).drop_last() =~= artifact_ref_views(
                found@,
            ).take(i as int));
        }
        match compare_str(found[i].path().as_str(), best.path().as_str()) {
            Order::Less => {
                best = found[i];
            },
            _ => {},
        }
        i = i + 1;
    }
    proof {
        assert(artifact_ref_views(found@).take(i as int) =~= artifact_ref_views(found@));
    }
    best
}

impl RunnableJob {
    /// Finds the artifact that meets a dependency. Where the stores hold
    /// more than one, the first by path is taken, and the result says so.
    pub fn build_resource(dependency: &Dependency, merged_stores: &MergedStores) -> (r: Result<
        (JobResource, bool),
        JobError,
    >)
        ensures
            match r {
                Ok((resource, ambiguous)) => spec_resource(
                    merged_stores.staging.index(),
                    merged_stores.release.index(),
                    dependency@,
                ) matches Ok(found) && resource@ == JobResourceView::Artifact(found.0) && ambiguous
                    == found.1,
                Err(e) => spec_resource(
                    merged_stores.staging.index(),
                    merged_stores.release.index(),
                    dependency@,
                ) == Err::<(ArtifactView, bool), JobErrorView>(e@),
            },
    {
        let (name, constraint) = match dependency.parse_as_name_and_version() {
            Ok(parsed) => parsed,
            Err(e) => {
                return Err(JobError::Dependency(e));
            },
        };
        let found = merged_stores.get_artifact_by_name_and_version(&name, constraint.version());
        if found.len() == 0 {
            return Err(
                JobError::MissingDependency {
                    name: name.as_str().to_owned(),
                    version: constraint.version().as_str().to_owned(),
                },
            );
        }
        let artifact = pick_first(&found);
        Ok((JobResource::Artifact(artifact.clone()), found.len() > 1))
    }

    /// Finds the artifacts that meet some dependencies, in order, and adds
    /// them to the resources.
    fn build_resources(
        dependencies: &Vec<Dependency>,
        merged_stores: &MergedStores,
        resources: &mut Vec<JobResource>,
        ambiguous: &mut Vec<bool>,
    ) -> (r: Result<(), JobError>)
        ensures
            match r {
                Ok(()) => {
                    &&& spec_resources(
                        merged_stores.staging.index(),
                        merged_stores.release.index(),
                        specifiers(dependencies@),
                    ) is Ok
                    &&& resource_views(final(resources)@) == resource_views(old(resources)@)
                        + as_resources(
                        spec_resources(
                            merged_stores.staging.index(),
                            merged_stores.release.index(),
                            specifiers(dependencies@),
                        )->Ok_0,
                    )
                    &&& final(ambiguous)@ == old(ambiguous)@ + as_ambiguous(
                        spec_resources(
                            merged_stores.staging.index(),
                            merged_stores.release.index(),
                            specifiers(dependencies@),
                        )->Ok_0,
                    )
                },
                Err(e) => spec_resources(
                    merged_stores.staging.index(),
                    merged_stores.release.index(),
                    specifiers(dependencies@),
                ) == Err::<Seq<(ArtifactView, bool)>, JobErrorView>(e@),
            },
    {
        let ghost staging = merged_stores.staging.index();
        let ghost release = merged_stores.release.index();
        let ghost all = specifiers(dependencies@);
        let ghost mut found: Seq<(ArtifactView, bool)> = Seq::empty();
        let mut i: usize = 0;
        proof {
            assert(all.take(0) =~= Seq::<Seq<char>>::empty());
            assert(resource_views(resources@) + as_resources(found) =~= resource_views(resources@));
            assert(ambiguous@ + as_ambiguous(found) =~= ambiguous@);
        }
        while i < dependencies.len()
            invariant
                i <= dependencies.len(),
                staging == merged_stores.staging.index(),
                release == merged_stores.release.index(),
                all == specifiers(dependencies@),
                spec_resources(staging, release, all.take(i as int)) == Ok::<
                    Seq<(ArtifactView, bool)>,
                    JobErrorView,
                >(found),
                resource_views(resources@) == resource_views(old(resources)@) + as_resources(found),
                ambiguous@ == old(ambiguous)@ + as_ambiguous(found),
            decreases dependencies.len() - i,
        {
            proof {
                assert(all.take(i as int + 1).drop_last() =~= all.take(i as int));
                assert(all.take(i as int + 1).last() == dependencies@[i as int]@);
            }
            match RunnableJob::build_resource(&dependencies[i], merged_stores) {
                Ok((resource, more)) => {
                    let ghost so_far = found;
                    let ghost met = spec_resource(staging, release, dependencies@[i as int]@)->Ok_0;
                    let ghost before = resource_views(resources@);
                    let ghost flags = ambiguous@;
                    resources.push(resource);
                    ambiguous.push(more);
                    proof {
                        found = so_far.push(met);
                        assert(resource_views(resources@) =~= before.push(
                            JobResourceView::Artifact(met.0),
                        ));
                        assert(as_resources(found) =~= as_resources(so_far).push(
                            JobResourceView::Artifact(met.0),
                        ));
                        assert(as_ambiguous(found) =~= as_ambiguous(so_far).push(met.1));
                        assert(resource_views(resources@) =~= resource_views(old(resources)@)
                            + as_resources(found));
                        assert(ambiguous@ =~= old(ambiguous)@ + as_ambiguous(found));
                    }
                },
                Err(e) => {
                    proof {
                        lemma_resources_error(staging, release, all, i as int + 1);
                    }
                    return Err(e);
                },
            }
            i = i + 1;
        }
        proof {
            assert(all.take(i as int) =~= all);
        }
        Ok(())
    }

    /// Makes a job runnable: builds its script and finds the artifacts
    /// that its package depends on, those for the build first.
    pub fn build_from_job(job: Job, merged_stores: &MergedStores, source_cache: &SourceCache) -> (r:
        Result<RunnableJob, JobError>)
        ensures
            match r {
                Ok(runnable) => spec_build_from_job(
                    job,
                    merged_stores.staging.index(),
                    merged_stores.release.index(),
                    source_cache.root(),
                ) == Ok::<RunnableJobView, JobErrorView>(runnable@) && runnable@.resources.len()
                    == job.package@.build.len() + job.package@.runtime.len(),
                Err(e) => spec_build_from_job(
                    job,
                    merged_stores.staging.index(),
                    merged_stores.release.index(),
                    source_cache.root(),
                ) == Err::<RunnableJobView, JobErrorView>(e@),
            },
    {
        let script = match ScriptBuilder::new(job.script_shebang.as_str()).build(
            &job.package,
            &job.script_phases,
        ) {
            Ok(script) => script,
            Err(e) => {
                return Err(JobError::Script(e));
            },
        };
        let mut resources: Vec<JobResource> = Vec::new();
        let mut ambiguous: Vec<bool> = Vec::new();
        let ghost staging = merged_stores.staging.index();
        let ghost release = merged_stores.release.index();
        proof {
            lemma_resources_concat(staging, release, job.package@.build, job.package@.runtime);
            assert(resource_views(resources@) =~= Seq::<JobResourceView>::empty());
        }
        match RunnableJob::build_resources(
            job.package.dependencies().build(),
            merged_stores,
            &mut resources,
            &mut ambiguous,
        ) {
            Ok(()) => {},
            Err(e) => {
                return Err(e);
            },
        }
        match RunnableJob::build_resources(
            job.package.dependencies().runtime(),
            merged_stores,
            &mut resources,
            &mut ambiguous,
        ) {
            Ok(()) => {},
            Err(e) => {
                return Err(e);
            },
        }
        proof {
            let found = spec_resources(staging, release, job.package@.build)->Ok_0;
            let more = spec_resources(staging, release, job.package@.runtime)->Ok_0;
            assert(resource_views(resources@) =~= as_resources(found + more));
            assert(ambiguous@ =~= as_ambiguous(found + more));
            lemma_resources_len(staging, release, job.package@.build);
            lemma_resources_len(staging, release, job.package@.runtime);
        }
        Ok(
            RunnableJob {
                uuid: job.uuid,
                package: job.package,
                image: job.image,
                source_cache: source_cache.clone(),
                script,
                resources,
                ambiguous,
            },
        )
    }

    /// The identifier of the job.
    pub fn uuid(&self) -> (r: u128)
        ensures
            r == self@.uuid,
    {
        self.uuid
    }

    /// The package to build.
    pub fn package(&self) -> (r: &Package)
        ensures
            r@ == self@.package,
    {
        &self.package
    }

    /// The image to build in.
    pub fn image(&self) -> (r: &String)
        ensures
            r@ == self@.image,
    {
        &self.image
    }

    /// The cache of sources.
    pub fn source_cache(&self) -> (r: &SourceCache)
        ensures
            r.root() == self@.source_root,
    {
        &self.source_cache
    }

    /// The script to run.
    pub fn script(&self) -> (r: &Script)
        ensures
            r@ == self@.script,
    {
        &self.script
    }

    /// The artifacts that the package depends on: those that its build
    /// needs, then those that running it needs.
    pub fn resources(&self) -> (r: &Vec<JobResource>)
        ensures
            resource_views(r@) == self@.resources,
    {
        &self.resources
    }

    /// For each resource, whether the stores held more than one artifact
    /// that could have been taken.
    pub fn ambiguous(&self) -> (r: &Vec<bool>)
        ensures
            r@ == self@.ambiguous,
    {
        &self.ambiguous
    }

    /// Where the source of the package is kept.
    pub fn package_source(&self) -> (r: SourceEntry)
        ensures
            r.path@ == spec_source_path(self@.source_root, self@.package),
    {
        self.source_cache.source_for(&self.package)
    }
}

} // verus!
