//! One plain record per table row, as the reporting commands read them.

use crate::util::time::Timestamp;
use vstd::prelude::*;

verus! {

/// One build campaign.
#[derive(Debug, Clone)]
pub struct Submit {
    pub id: i32,
    pub uuid: u128,
    pub submit_time: Timestamp,
    pub requested_image_id: i32,
    pub requested_package_id: i32,
    pub repo_hash_id: i32,
}

/// One build of one package in one container.
#[derive(Debug, Clone)]
pub struct Job {
    pub id: i32,
    pub submit_id: i32,
    pub endpoint_id: i32,
    pub package_id: i32,
    pub image_id: i32,
    pub container_hash: String,
    pub script_text: String,
    pub log_text: String,
    pub uuid: u128,
}

/// A package by name and version.
#[derive(Debug, Clone)]
pub struct Package {
    pub id: i32,
    pub name: String,
    pub version: String,
}

/// A container image by name.
#[derive(Debug, Clone)]
pub struct Image {
    pub id: i32,
    pub name: String,
}

/// A container host by name.
#[derive(Debug, Clone)]
pub struct Endpoint {
    pub id: i32,
    pub name: String,
}

/// An environment variable with its value.
#[derive(Debug, Clone)]
pub struct EnvVar {
    pub id: i32,
    pub name: String,
    pub value: String,
}

/// A file that a job produced, by its path in the store.
#[derive(Debug, Clone)]
pub struct Artifact {
    pub id: i32,
    pub path: String,
    pub job_id: i32,
}

/// The promotion of an artifact into a release store.
#[derive(Debug, Clone)]
pub struct Release {
    pub id: i32,
    pub artifact_id: i32,
    pub release_date: Timestamp,
    pub release_store_id: i32,
}

/// A release store by name.
#[derive(Debug, Clone)]
pub struct ReleaseStore {
    pub id: i32,
    pub store_name: String,
}

/// The commit of the recipe repository that a submit was made from.
#[derive(Debug, Clone)]
pub struct GitHash {
    pub id: i32,
    pub hash: String,
}

} // verus!
