//! What a job takes into its container.

use crate::filestore::artifact::{Artifact, ArtifactView};
use vstd::prelude::*;

verus! {

/// An input of a job: a variable of its environment, or an artifact.
#[derive(Debug)]
pub enum JobResource {
    Environment { name: String, value: String },
    Artifact(Artifact),
}

/// The mathematical value of a `JobResource`.
pub enum JobResourceView {
    Environment { name: Seq<char>, value: Seq<char> },
    Artifact(ArtifactView),
}

impl View for JobResource {
    type V = JobResourceView;

    open spec fn view(&self) -> JobResourceView {
        match *self {
            JobResource::Environment { name, value } => JobResourceView::Environment {
                name: name@,
                value: value@,
            },
            JobResource::Artifact(artifact) => JobResourceView::Artifact(artifact@),
        }
    }
}

impl JobResource {
    /// The variable, if the resource is one.
    pub fn env(&self) -> (r: Option<(&String, &String)>)
        ensures
            match r {
                Some((name, value)) => self@ == (JobResourceView::Environment {
                    name: name@,
                    value: value@,
                }),
                None => self@ is Artifact,
            },
    {
        match self {
            JobResource::Environment { name, value } => Some((name, value)),
            JobResource::Artifact(_) => None,
        }
    }

    /// The artifact, if the resource is one.
    pub fn artifact(&self) -> (r: Option<&Artifact>)
        ensures
            match r {
                Some(artifact) => self@ == JobResourceView::Artifact(artifact@),
                None => self@ is Environment,
            },
    {
        match self {
            JobResource::Artifact(artifact) => Some(artifact),
            JobResource::Environment { .. } => None,
        }
    }
}

/// The values of some resources.
pub open spec fn resource_views(resources: Seq<JobResource>) -> Seq<JobResourceView> {
    resources.map_values(|r: JobResource| r@)
}

} // verus!
