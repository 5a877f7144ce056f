//! The checks that an endpoint must pass, and the pool that only comes
//! about where every endpoint passes.

use crate::commands::endpoint::{image_names, option_texts, EndpointConfiguration};
use crate::util::text::{str_equal, texts};
use vstd::prelude::*;

verus! {

/// What an endpoint says of itself when it is connected to.
#[derive(Debug)]
pub struct EndpointReport {
    pub version: String,
    pub api_version: String,
    /// The names of the images that the endpoint has.
    pub images: Vec<String>,
}

/// Why an endpoint does not join the pool.
#[derive(Debug, Clone, Copy, PartialEq, Eq, Structural)]
pub enum RequirementError {
    /// The version of the daemon is none of the required ones.
    VersionMismatch,
    /// The version of the API is none of the required ones.
    ApiVersionMismatch,
    /// The endpoint lacks the required image at this place.
    ImageMissing(usize),
}

/// Whether a version is acceptable: it is one of the required ones, or
/// none are required.
pub open spec fn version_ok(required: Option<Seq<Seq<char>>>, version: Seq<char>) -> bool {
    match required {
        Some(versions) => versions.contains(version),
        None => true,
    }
}

/// The place of the first required image that the endpoint lacks, or the
/// number of required images where it has them all.
pub open spec fn first_missing(required: Seq<(Seq<char>, Seq<char>)>, available: Seq<Seq<char>>) -> int
    decreases required.len(),
{
    if required.len() == 0 || !available.contains(required[0].0) {
        0
    } else {
        1 + first_missing(required.drop_first(), available)
    }
}

/// What the check of an endpoint gives: the version of the daemon is looked
/// at first, then that of the API, then the images.
pub open spec fn spec_check(
    versions: Option<Seq<Seq<char>>>,
    api_versions: Option<Seq<Seq<char>>>,
    images: Seq<(Seq<char>, Seq<char>)>,
    report: EndpointReport,
) -> Result<(), RequirementError> {
    if !version_ok(versions, report.version@) {
        Err(RequirementError::VersionMismatch)
    } else if !version_ok(api_versions, report.api_version@) {
        Err(RequirementError::ApiVersionMismatch)
    } else if 0 <= first_missing(images, texts(report.images@)) < images.len() {
        Err(RequirementError::ImageMissing(first_missing(images, texts(report.images@)) as usize))
    } else {
        Ok(())
    }
}

fn includes(items: &Vec<String>, text: &str) -> (r: bool)
    ensures
        r == texts(items@).contains(text@),
{
    let mut i: usize = 0;
    while i < items.len()
        invariant
            i <= items.len(),
            forall|j: int| 0 <= j < i ==> texts(items@)[j] != text@,
        decreases items.len() - i,
    {
        if str_equal(items[i].as_str(), text) {
            assert(texts(items@)[i as int] == text@);
            return true;
        }
        i = i + 1;
    }
    false
}

fn check_version(required: &Option<Vec<String>>, version: &str) -> (r: bool)
    ensures
        r == version_ok(option_texts(*required), version@),
{
    match required {
        Some(versions) => includes(versions, version),
        None => true,
    }
}

/// Checks an endpoint against what its configuration requires of it.
pub fn check_requirements(configuration: &EndpointConfiguration, report: &EndpointReport) -> (r:
    Result<(), RequirementError>)
    ensures
        r == spec_check(
            option_texts(configuration.required_docker_versions),
            option_texts(configuration.required_docker_api_versions),
            image_names(configuration.required_images@),
            *report,
        ),
{
    if !check_version(&configuration.required_docker_versions, report.version.as_str()) {
        return Err(RequirementError::VersionMismatch);
    }
    if !check_version(&configuration.required_docker_api_versions, report.api_version.as_str()) {
        return Err(RequirementError::ApiVersionMismatch);
    }
    let required = &configuration.required_images;
    let ghost wanted = image_names(required@);
    let ghost available = texts(report.images@);
    let mut i: usize = 0;
    proof {
        assert(wanted.skip(0) =~= wanted);
    }
    while i < required.len()
        invariant
            i <= required.len(),
            wanted == image_names(required@),
            required@ == configuration.required_images@,
            available == texts(report.images@),
            version_ok(option_texts(configuration.required_docker_versions), report.version@),
            version_ok(
                option_texts(configuration.required_docker_api_versions),
                report.api_version@,
            ),
            first_missing(wanted, available) == i + first_missing(wanted.skip(i as int), available),
        decreases required.len() - i,
    {
        proof {
            assert(wanted.skip(i as int).drop_first() =~= wanted.skip(i as int + 1));
        }
        if !includes(&report.images, required[i].name.as_str()) {
            proof {
                assert(wanted.skip(i as int)[0].0 == required@[i as int].name@);
            }
            return Err(RequirementError::ImageMissing(i));
        }
        i = i + 1;
    }
    Ok(())
}

/// The pool of some endpoints that were connected to: all of them, in
/// order, or the error of the first that failed.
pub open spec fn spec_pool<T, E>(connected: Seq<Result<T, E>>) -> Result<Seq<T>, E>
    decreases connected.len(),
{
    if connected.len() == 0 {
        Ok(Seq::empty())
    } else {
        match spec_pool(connected.drop_last()) {
            Err(e) => Err(e),
            Ok(pool) => match connected.last() {
                Ok(endpoint) => Ok(pool.push(endpoint)),
                Err(e) => Err(e),
            },
        }
    }
}

/// An error among the first endpoints is the error of them all.
pub proof fn lemma_pool_error<T, E>(connected: Seq<Result<T, E>>, n: int)
    requires
        0 <= n <= connected.len(),
        spec_pool(connected.take(n)) is Err,
    ensures
        spec_pool(connected) == spec_pool(connected.take(n)),
    decreases connected.len(),
{
    if n == connected.len() {
        assert(connected.take(n) =~= connected);
    } else {
        assert(connected.drop_last().take(n) =~= connected.take(n));
        lemma_pool_error(connected.drop_last(), n);
    }
}

/// Makes the pool of the endpoints that were connected to. One endpoint
/// that failed fails the pool: there is no pool of some of them.
pub fn setup_endpoints<T, E>(connected: Vec<Result<T, E>>) -> (r: Result<Vec<T>, E>)
    ensures
        match r {
            Ok(pool) => spec_pool(connected@) == Ok::<Seq<T>, E>(pool@),
            Err(e) => spec_pool(connected@) == Err::<Seq<T>, E>(e),
        },
{
    let mut pool: Vec<T> = Vec::new();
    let ghost all = connected@;
    proof {
        assert(all.take(0) =~= Seq::<Result<T, E>>::empty());
    }
    for item in it: connected
        invariant
            it.seq() == all,
            spec_pool(all.take(it.index() as int)) == Ok::<Seq<T>, E>(pool@),
    {
        proof {
            assert(all.take(it.index() + 1).drop_last() =~= all.take(it.index() as int));
            assert(all.take(it.index() + 1).last() == item);
        }
        match item {
            Ok(endpoint) => {
                pool.push(endpoint);
            },
            Err(e) => {
                proof {
                    lemma_pool_error(all, it.index() + 1);
                }
                return Err(e);
            },
        }
    }
    proof {
        assert(all.take(all.len() as int) =~= all);
    }
    Ok(pool)
}

} // verus!
