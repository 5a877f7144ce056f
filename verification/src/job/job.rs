//! A job as it is submitted: a package to build in an image.

use crate::job::resource::JobResource;
use crate::package::package::Package;
use vstd::prelude::*;

verus! {

/// A package to build in an image, with the shebang and the declared phases
/// of its script and the variables of its environment.
#[derive(Debug)]
pub struct Job {
    pub uuid: u128,
    pub package: Package,
    pub image: String,
    pub script_shebang: String,
    pub script_phases: Vec<String>,
    pub resources: Vec<JobResource>,
}

impl Job {
    /// A job for a package. The identifier is the caller's to choose.
    pub fn new(
        uuid: u128,
        package: Package,
        script_shebang: String,
        image: String,
        script_phases: Vec<String>,
        resources: Vec<JobResource>,
    ) -> (r: Job)
        ensures
            r.uuid == uuid,
            r.package == package,
            r.image == image,
            r.script_shebang == script_shebang,
            r.script_phases == script_phases,
            r.resources == resources,
    {
        Job { uuid, package, image, script_shebang, script_phases, resources }
    }

    /// The package to build.
    pub fn package(&self) -> (r: &Package)
        ensures
            *r == self.package,
    {
        &self.package
    }
}

} // verus!
