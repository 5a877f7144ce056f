//! `db submit`: one submit with its jobs.

use crate::commands::db::job::job_verdict;
use crate::db::models;
use crate::log::parsed::{JobResult, ParsedLog};
use crate::util::docker::{spec_shorten, ContainerImage, ImageNameLookup};
use crate::util::ident::{format_uuid, uuid_text};
use crate::util::time::datetime_text;
use vstd::prelude::*;
use vstd::string::StringExecFns;

verus! {

/// The colour of a cell.
#[derive(Debug, Clone, Copy, PartialEq, Eq, Structural)]
pub enum Color {
    Normal,
    Cyan,
    Green,
    Red,
    Yellow,
}

/// A cell of text in a colour.
#[derive(Debug, Clone)]
pub struct Cell {
    pub text: String,
    pub color: Color,
}

impl View for Cell {
    type V = (Seq<char>, Color);

    open spec fn view(&self) -> (Seq<char>, Color) {
        (self.text@, self.color)
    }
}

/// A job of the submit with the rows that the database found for it.
#[derive(Debug, Clone)]
pub struct SubmitJob {
    pub job: models::Job,
    pub image: Option<models::Image>,
    pub package: Option<models::Package>,
    pub endpoint: Option<models::Endpoint>,
}

/// Why the jobs of a submit could not be listed.
#[derive(Debug, Clone, Copy, PartialEq, Eq, Structural)]
pub enum SubmitError {
    /// The database holds no image for the job at this place.
    ImageNotFound(usize),
    /// The database holds no package for the job at this place.
    PackageNotFound(usize),
    /// The database holds no endpoint for the job at this place.
    EndpointNotFound(usize),
}

/// What `db submit` prints: the head with the counts, then the jobs.
#[derive(Debug)]
pub struct SubmitReport {
    pub submit_id: String,
    pub date: String,
    pub commit: String,
    pub jobs: usize,
    pub success: usize,
    pub unknown: usize,
    pub errored: usize,
    pub header: Vec<String>,
    /// The rows, or what stopped the listing after the head was printed.
    pub rows: Result<Vec<Vec<Cell>>, SubmitError>,
}

/// How many of the jobs have the verdict.
pub open spec fn count_verdict(jobs: Seq<SubmitJob>, verdict: JobResult) -> nat
    decreases jobs.len(),
{
    if jobs.len() == 0 {
        0
    } else {
        count_verdict(jobs.drop_last(), verdict) + if job_verdict(jobs.last().job) == verdict {
            1nat
        } else {
            0nat
        }
    }
}

/// The cell for a verdict.
pub open spec fn verdict_cell(verdict: JobResult) -> (Seq<char>, Color) {
    match verdict {
        JobResult::Success => ("Success"@, Color::Green),
        JobResult::Errored => ("Error"@, Color::Red),
        JobResult::Unknown => ("Unknown"@, Color::Yellow),
    }
}

/// What is missing for a job, if anything is: the image is looked for
/// first, then the package, then the endpoint.
pub open spec fn missing(job: SubmitJob, index: usize) -> Option<SubmitError> {
    if job.image.is_none() {
        Some(SubmitError::ImageNotFound(index))
    } else if job.package.is_none() {
        Some(SubmitError::PackageNotFound(index))
    } else if job.endpoint.is_none() {
        Some(SubmitError::EndpointNotFound(index))
    } else {
        None
    }
}

/// The row of a job for which nothing is missing.
pub open spec fn submit_row(job: SubmitJob, images: Seq<ContainerImage>) -> Seq<(Seq<char>, Color)> {
    seq![
        (uuid_text(job.job.uuid), Color::Cyan),
        verdict_cell(job_verdict(job.job)),
        (job.package.unwrap().name@, Color::Cyan),
        (job.package.unwrap().version@, Color::Cyan),
        (job.job.container_hash@, Color::Normal),
        (job.endpoint.unwrap().name@, Color::Normal),
        (spec_shorten(images, job.image.unwrap().name@), Color::Normal),
    ]
}

/// The cells of a row.
pub open spec fn cells(row: Vec<Cell>) -> Seq<(Seq<char>, Color)> {
    row@.map_values(|c: Cell| c@)
}

/// Whether `rows` lists the jobs: a row for each, in order, or the error of
/// the first job for which something is missing.
pub open spec fn is_submit_rows(
    rows: Result<Vec<Vec<Cell>>, SubmitError>,
    jobs: Seq<SubmitJob>,
    images: Seq<ContainerImage>,
) -> bool {
    match rows {
        Ok(rows) => {
            &&& rows@.len() == jobs.len()
            &&& forall|i: int|
                0 <= i < jobs.len() ==> missing(#[trigger] jobs[i], i as usize).is_none()
            &&& forall|i: int|
                0 <= i < jobs.len() ==> cells(#[trigger] rows@[i]) == submit_row(jobs[i], images)
        },
        Err(e) => exists|i: int|
            0 <= i < jobs.len() && missing(#[trigger] jobs[i], i as usize) == Some(e) && forall|j: int|
                0 <= j < i ==> missing(#[trigger] jobs[j], j as usize).is_none(),
    }
}

/// The column titles of the jobs.
pub open spec fn submit_titles() -> Seq<Seq<char>> {
    seq!["Job"@, "Success"@, "Package"@, "Version"@, "Container"@, "Endpoint"@, "Image"@]
}

fn cell(text: String, color: Color) -> (c: Cell)
    ensures
        c@ == (text@, color),
{
    Cell { text, color }
}

fn submit_row_of(job: &SubmitJob, index: usize, lookup: &ImageNameLookup) -> (row: Result<
    Vec<Cell>,
    SubmitError,
>)
    ensures
        match row {
            Ok(row) => missing(*job, index).is_none() && cells(row) == submit_row(
                *job,
                lookup.images(),
            ),
            Err(e) => missing(*job, index) == Some(e),
        },
{
    let image = match &job.image {
        Some(image) => image,
        None => {
            return Err(SubmitError::ImageNotFound(index));
        },
    };
    let package = match &job.package {
        Some(package) => package,
        None => {
            return Err(SubmitError::PackageNotFound(index));
        },
    };
    let endpoint = match &job.endpoint {
        Some(endpoint) => endpoint,
        None => {
            return Err(SubmitError::EndpointNotFound(index));
        },
    };
    let verdict = match ParsedLog::from_str(job.job.log_text.as_str()).is_successfull() {
        JobResult::Success => cell(String::from_str("Success"), Color::Green),
        JobResult::Errored => cell(String::from_str("Error"), Color::Red),
        JobResult::Unknown => cell(String::from_str("Unknown"), Color::Yellow),
    };
    let row = vec![
        cell(format_uuid(job.job.uuid), Color::Cyan),
        verdict,
        cell(package.name.clone(), Color::Cyan),
        cell(package.version.clone(), Color::Cyan),
        cell(job.job.container_hash.clone(), Color::Normal),
        cell(endpoint.name.clone(), Color::Normal),
        cell(lookup.shorten(image.name.as_str()), Color::Normal),
    ];
    proof {
        assert(cells(row) =~= submit_row(*job, lookup.images()));
    }
    Ok(row)
}

fn submit_rows(jobs: &Vec<SubmitJob>, lookup: &ImageNameLookup) -> (rows: Result<
    Vec<Vec<Cell>>,
    SubmitError,
>)
    ensures
        is_submit_rows(rows, jobs@, lookup.images()),
{
    let mut rows: Vec<Vec<Cell>> = Vec::new();
    let mut i: usize = 0;
    while i < jobs.len()
        invariant
            i <= jobs.len(),
            rows@.len() == i,
            forall|j: int| 0 <= j < i ==> missing(#[trigger] jobs@[j], j as usize).is_none(),
            forall|j: int|
                0 <= j < i ==> cells(#[trigger] rows@[j]) == submit_row(jobs@[j], lookup.images()),
        decreases jobs.len() - i,
    {
        match submit_row_of(&jobs[i], i, lookup) {
            Ok(row) => {
                rows.push(row);
            },
            Err(e) => {
                assert(missing(jobs@[i as int], i as usize) == Some(e));
                return Err(e);
            },
        }
        i = i + 1;
    }
    Ok(rows)
}

/// The counts of the three verdicts among the jobs.
fn count_verdicts(jobs: &Vec<SubmitJob>) -> (counts: (usize, usize, usize))
    ensures
        counts.0 == count_verdict(jobs@, JobResult::Unknown),
        counts.1 == count_verdict(jobs@, JobResult::Success),
        counts.2 == count_verdict(jobs@, JobResult::Errored),
{
    let mut unknown: usize = 0;
    let mut success: usize = 0;
    let mut errored: usize = 0;
    let mut i: usize = 0;
    while i < jobs.len()
        invariant
            i <= jobs.len(),
            unknown <= i,
            success <= i,
            errored <= i,
            unknown == count_verdict(jobs@.take(i as int), JobResult::Unknown),
            success == count_verdict(jobs@.take(i as int), JobResult::Success),
            errored == count_verdict(jobs@.take(i as int), JobResult::Errored),
        decreases jobs.len() - i,
    {
        proof {
            assert(jobs@.take(i as int + 1).drop_last() =~= jobs@.take(i as int));
        }
        match ParsedLog::from_str(jobs[i].job.log_text.as_str()).is_successfull() {
            JobResult::Unknown => {
                unknown = unknown + 1;
            },
            JobResult::Success => {
                success = success + 1;
            },
            JobResult::Errored => {
                errored = errored + 1;
            },
        }
        i = i + 1;
    }
    proof {
        assert(jobs@.take(i as int) =~= jobs@);
    }
    (unknown, success, errored)
}

/// Whether `report` is the report of the submit.
pub open spec fn is_submit_report(
    report: SubmitReport,
    submit: models::Submit,
    githash: models::GitHash,
    jobs: Seq<SubmitJob>,
    images: Seq<ContainerImage>,
) -> bool {
    &&& report.submit_id@ == uuid_text(submit.uuid)
    &&& Some(report.date@) == datetime_text(submit.submit_time.secs, submit.submit_time.nanos)
    &&& report.commit@ == githash.hash@
    &&& report.jobs == jobs.len()
    &&& report.success == count_verdict(jobs, JobResult::Success)
    &&& report.unknown == count_verdict(jobs, JobResult::Unknown)
    &&& report.errored == count_verdict(jobs, JobResult::Errored)
    &&& crate::util::text::texts(report.header@) == submit_titles()
    &&& is_submit_rows(report.rows, jobs, images)
}

/// Shapes what `db submit` prints of a submit: its head, the counts of its
/// jobs by verdict, and a row for each job.
///
/// Nothing is printed of a submit whose time cannot be shown.
pub fn submit(
    record: &models::Submit,
    githash: &models::GitHash,
    jobs: &Vec<SubmitJob>,
    lookup: &ImageNameLookup,
) -> (r: Option<SubmitReport>)
    ensures
        match r {
            Some(report) => is_submit_report(report, *record, *githash, jobs@, lookup.images()),
            None => datetime_text(record.submit_time.secs, record.submit_time.nanos).is_none(),
        },
{
    let date = match record.submit_time.to_text() {
        Some(date) => date,
        None => {
            return None;
        },
    };
    let counts = count_verdicts(jobs);
    let names = vec!["Job", "Success", "Package", "Version", "Container", "Endpoint", "Image"];
    let header = crate::commands::util::mk_header(names);
    proof {
        assert(crate::commands::util::titles(names@) =~= submit_titles());
    }
    Some(
        SubmitReport {
            submit_id: format_uuid(record.uuid),
            date,
            commit: githash.hash.clone(),
            jobs: jobs.len(),
            success: counts.1,
            unknown: counts.0,
            errored: counts.2,
            header,
            rows: submit_rows(jobs, lookup),
        },
    )
}

} // verus!
