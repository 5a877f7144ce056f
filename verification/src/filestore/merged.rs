//! The merged view of the staging store and a release store.

use crate::filestore::artifact::{Artifact, ArtifactView};
use crate::filestore::release::ReleaseStore;
use crate::filestore::staging::StagingStore;
use crate::filestore::store::{artifact_ref_views, is_artifact_of};
use crate::package::name::{PackageName, PackageVersion};
use vstd::prelude::*;

verus! {

/// The artifacts of both stores, those of staging first. It only reads.
pub struct MergedStores<'a> {
    pub release: &'a ReleaseStore,
    pub staging: &'a StagingStore,
}

/// The artifacts of a package and version in both indexes: those of
/// staging, then those of the release store, each in the order of its
/// index. An artifact that is in both is found twice.
pub open spec fn merged_artifacts(
    staging: Seq<ArtifactView>,
    release: Seq<ArtifactView>,
    name: Seq<char>,
    version: Seq<char>,
) -> Seq<ArtifactView> {
    staging.filter(|a: ArtifactView| is_artifact_of(a, name, version)) + release.filter(
        |a: ArtifactView| is_artifact_of(a, name, version),
    )
}

impl<'a> MergedStores<'a> {
    /// The merged view of two stores.
    pub fn new(release: &'a ReleaseStore, staging: &'a StagingStore) -> (r: MergedStores<'a>)
        ensures
            r.release == release,
            r.staging == staging,
    {
        MergedStores { release, staging }
    }

    /// The artifacts of the package and the version; none where neither
    /// store has one.
    pub fn get_artifact_by_name_and_version(&self, name: &PackageName, version: &PackageVersion) -> (r:
        Vec<&'a Artifact>)
        ensures
            artifact_ref_views(r@) == merged_artifacts(
                self.staging.index(),
                self.release.index(),
                name@,
                version@,
            ),
    {
        let mut found: Vec<&'a Artifact> = Vec::new();
        proof {
            assert(artifact_ref_views(found@) =~= Seq::<ArtifactView>::empty());
        }
        self.staging.0.get_artifact_by_name_and_version(name, version, &mut found);
        self.release.0.get_artifact_by_name_and_version(name, version, &mut found);
        proof {
            assert(artifact_ref_views(found@) =~= merged_artifacts(
                self.staging.index(),
                self.release.index(),
                name@,
                version@,
            ));
        }
        found
    }
}

} // verus!
