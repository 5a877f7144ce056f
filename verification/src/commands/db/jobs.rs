//! `db jobs`: the jobs that the database holds, filtered.

use crate::commands::db::job::job_verdict;
use crate::commands::db::{get_limit, spec_limit};
use crate::commands::util::{is_listing, listing, mk_header, rows_texts, titles};
use crate::commands::util::{Listing, ReportError};
use crate::db::models;
use crate::log::parsed::{JobResult, ParsedLog};
use crate::util::docker::{spec_expand, spec_shorten, ContainerImage, ImageNameLookup};
use crate::util::ident::{format_uuid, uuid_text};
use crate::util::text::{after_last, split_once, text_after_last, text_split_once, texts};
use crate::util::text::{to_uppercase, uppercase};
use crate::util::time::{datetime_seconds_text, parse_date, spec_parse_date, DateError, Timestamp};
use vstd::prelude::*;
use vstd::string::StringExecFns;

verus! {

/// The options of `db jobs`, as the command line gives them.
#[derive(Debug, Clone)]
pub struct JobsOptions {
    pub csv: bool,
    pub submit_uuid: Option<u128>,
    pub image: Option<String>,
    pub env_filter: Option<String>,
    pub older_than: Option<String>,
    pub newer_than: Option<String>,
    pub endpoint: Option<String>,
    pub package: Option<String>,
    pub limit: Option<usize>,
}

/// One condition on the jobs to list.
#[derive(Debug, Clone)]
pub enum JobFilter {
    /// The job belongs to this submit.
    SubmitUuid(u128),
    /// The job ran in the image of this full name.
    Image(String),
    /// The job had this environment variable with this value.
    Env { name: String, value: String },
    /// The job's submit is older than this.
    OlderThan(Timestamp),
    /// The job's submit is newer than this.
    NewerThan(Timestamp),
    /// The job ran on the endpoint of this name.
    Endpoint(String),
    /// The job built the package of this name.
    Package(String),
}

/// The mathematical value of a `JobFilter`.
pub enum JobFilterView {
    SubmitUuid(u128),
    Image(Seq<char>),
    Env { name: Seq<char>, value: Seq<char> },
    OlderThan(Timestamp),
    NewerThan(Timestamp),
    Endpoint(Seq<char>),
    Package(Seq<char>),
}

impl View for JobFilter {
    type V = JobFilterView;

    open spec fn view(&self) -> JobFilterView {
        match *self {
            JobFilter::SubmitUuid(uuid) => JobFilterView::SubmitUuid(uuid),
            JobFilter::Image(name) => JobFilterView::Image(name@),
            JobFilter::Env { name, value } => JobFilterView::Env { name: name@, value: value@ },
            JobFilter::OlderThan(time) => JobFilterView::OlderThan(time),
            JobFilter::NewerThan(time) => JobFilterView::NewerThan(time),
            JobFilter::Endpoint(name) => JobFilterView::Endpoint(name@),
            JobFilter::Package(name) => JobFilterView::Package(name@),
        }
    }
}

/// The query behind `db jobs`: every filter holds of a listed job; the
/// newest `limit` of them are read and listed oldest first.
#[derive(Debug, Clone)]
pub struct JobsQuery {
    pub filters: Vec<JobFilter>,
    pub limit: i64,
}

/// The mathematical value of a `JobsQuery`.
pub struct JobsQueryView {
    pub filters: Seq<JobFilterView>,
    pub limit: i64,
}

impl View for JobsQuery {
    type V = JobsQueryView;

    open spec fn view(&self) -> JobsQueryView {
        JobsQueryView { filters: views(self.filters@), limit: self.limit }
    }
}

/// Why the options give no query.
#[derive(Debug, Clone, Copy, PartialEq, Eq, Structural)]
pub enum QueryError {
    /// `--older-than` is no date.
    OlderThan(DateError),
    /// `--newer-than` is no date.
    NewerThan(DateError),
    /// `--image` names no configured image.
    UnknownImage,
    /// `--env` is not of the form `name=value`.
    MalformedEnvFilter,
    /// `--limit` does not fit the database's `LIMIT`.
    LimitOutOfRange,
}

/// The filter of an option that is present.
pub open spec fn filter_of<T>(option: Option<T>, make: spec_fn(T) -> JobFilterView) -> Seq<
    JobFilterView,
> {
    match option {
        Some(value) => seq![make(value)],
        None => Seq::empty(),
    }
}

/// The filters that the options ask for, in the order in which they are
/// applied. The options are taken to be well-formed.
pub open spec fn spec_jobs_filters(opts: JobsOptions, images: Seq<ContainerImage>) -> Seq<
    JobFilterView,
> {
    filter_of(opts.submit_uuid, |uuid: u128| JobFilterView::SubmitUuid(uuid)) + filter_of(
        opts.image,
        |name: String| JobFilterView::Image(spec_expand(images, name@).unwrap()),
    ) + filter_of(
        opts.env_filter,
        |env: String|
            JobFilterView::Env {
                name: split_once(env@, '=').unwrap().0,
                value: split_once(env@, '=').unwrap().1,
            },
    ) + filter_of(
        opts.older_than,
        |date: String| JobFilterView::OlderThan(spec_parse_date(date@).unwrap()),
    ) + filter_of(
        opts.newer_than,
        |date: String| JobFilterView::NewerThan(spec_parse_date(date@).unwrap()),
    ) + filter_of(opts.endpoint, |name: String| JobFilterView::Endpoint(name@)) + filter_of(
        opts.package,
        |name: String| JobFilterView::Package(name@),
    )
}

/// What is wrong with an optional date, if anything is.
pub open spec fn date_error(value: Option<String>) -> Option<DateError> {
    match value {
        Some(text) => match spec_parse_date(text@) {
            Ok(_) => None,
            Err(e) => Some(e),
        },
        None => None,
    }
}

/// The query that the options ask for, or the first thing that is wrong
/// with them: the dates are read first, then the image, the environment
/// filter and the limit.
pub open spec fn spec_jobs_query(
    opts: JobsOptions,
    images: Seq<ContainerImage>,
    default_limit: usize,
) -> Result<JobsQueryView, QueryError> {
    if date_error(opts.older_than).is_some() {
        Err(QueryError::OlderThan(date_error(opts.older_than).unwrap()))
    } else if date_error(opts.newer_than).is_some() {
        Err(QueryError::NewerThan(date_error(opts.newer_than).unwrap()))
    } else if opts.image matches Some(name) && spec_expand(images, name@).is_none() {
        Err(QueryError::UnknownImage)
    } else if opts.env_filter matches Some(env) && split_once(env@, '=').is_none() {
        Err(QueryError::MalformedEnvFilter)
    } else if spec_limit(opts.limit, default_limit) > i64::MAX {
        Err(QueryError::LimitOutOfRange)
    } else {
        Ok(
            JobsQueryView {
                filters: spec_jobs_filters(opts, images),
                limit: spec_limit(opts.limit, default_limit) as i64,
            },
        )
    }
}

/// Whether `r` is the outcome `expected`.
pub open spec fn is_jobs_query(
    r: Result<JobsQuery, QueryError>,
    expected: Result<JobsQueryView, QueryError>,
) -> bool {
    match r {
        Ok(query) => expected == Ok::<JobsQueryView, QueryError>(query@),
        Err(e) => expected == Err::<JobsQueryView, QueryError>(e),
    }
}

/// The values of some filters.
pub open spec fn views(filters: Seq<JobFilter>) -> Seq<JobFilterView> {
    filters.map_values(|f: JobFilter| f@)
}

/// The value of a filter that may be absent.
pub open spec fn option_view(filter: Option<JobFilter>) -> Seq<JobFilterView> {
    match filter {
        Some(f) => seq![f@],
        None => Seq::empty(),
    }
}

/// Adds a filter that is present.
fn add_filter(filters: &mut Vec<JobFilter>, filter: Option<JobFilter>)
    ensures
        views(final(filters)@) == views(old(filters)@) + option_view(filter),
{
    if let Some(f) = filter {
        filters.push(f);
    }
    proof {
        assert(views(filters@) =~= views(old(filters)@) + option_view(filter));
    }
}

/// Reads an optional date of the command line.
pub fn get_date_filter(value: &Option<String>) -> (r: Result<Option<Timestamp>, DateError>)
    ensures
        match value {
            None => r == Ok::<Option<Timestamp>, DateError>(None),
            Some(text) => match spec_parse_date(text@) {
                Ok(time) => r == Ok::<Option<Timestamp>, DateError>(Some(time)),
                Err(e) => r == Err::<Option<Timestamp>, DateError>(e),
            },
        },
{
    match value {
        None => Ok(None),
        Some(text) => match parse_date(text.as_str()) {
            Ok(time) => Ok(Some(time)),
            Err(e) => Err(e),
        },
    }
}

/// Turns the options of `db jobs` into the query to run.
pub fn jobs_query(opts: &JobsOptions, lookup: &ImageNameLookup, default_limit: usize) -> (r:
    Result<JobsQuery, QueryError>)
    ensures
        is_jobs_query(r, spec_jobs_query(*opts, lookup.images(), default_limit)),
{
    let older_than = match get_date_filter(&opts.older_than) {
        Ok(t) => t,
        Err(e) => {
            return Err(QueryError::OlderThan(e));
        },
    };
    let newer_than = match get_date_filter(&opts.newer_than) {
        Ok(t) => t,
        Err(e) => {
            return Err(QueryError::NewerThan(e));
        },
    };
    let image = match &opts.image {
        Some(name) => match lookup.expand(name.as_str()) {
            Ok(full) => Some(JobFilter::Image(full)),
            Err(_) => {
                return Err(QueryError::UnknownImage);
            },
        },
        None => None,
    };
    let env = match &opts.env_filter {
        Some(env) => match text_split_once(env.as_str(), '=') {
            Some((name, value)) => Some(JobFilter::Env { name, value }),
            None => {
                return Err(QueryError::MalformedEnvFilter);
            },
        },
        None => None,
    };
    let limit = match get_limit(opts.limit, default_limit) {
        Ok(limit) => limit,
        Err(_) => {
            return Err(QueryError::LimitOutOfRange);
        },
    };
    let mut filters: Vec<JobFilter> = Vec::new();
    assert(views(filters@) =~= Seq::<JobFilterView>::empty());
    add_filter(
        &mut filters,
        match opts.submit_uuid {
            Some(uuid) => Some(JobFilter::SubmitUuid(uuid)),
            None => None,
        },
    );
    add_filter(&mut filters, image);
    add_filter(&mut filters, env);
    add_filter(
        &mut filters,
        match older_than {
            Some(time) => Some(JobFilter::OlderThan(time)),
            None => None,
        },
    );
    add_filter(
        &mut filters,
        match newer_than {
            Some(time) => Some(JobFilter::NewerThan(time)),
            None => None,
        },
    );
    add_filter(
        &mut filters,
        match &opts.endpoint {
            Some(name) => Some(JobFilter::Endpoint(name.clone())),
            None => None,
        },
    );
    add_filter(
        &mut filters,
        match &opts.package {
            Some(name) => Some(JobFilter::Package(name.clone())),
            None => None,
        },
    );
    proof {
        assert(views(filters@) =~= spec_jobs_filters(*opts, lookup.images()));
    }
    Ok(JobsQuery { filters, limit })
}

/// A job as `db jobs` reads it: with the rows it points to and an artifact
/// that it made, if it made one.
#[derive(Debug, Clone)]
pub struct JobsRecord {
    pub job: models::Job,
    pub submit: models::Submit,
    pub endpoint: models::Endpoint,
    pub package: models::Package,
    pub image: models::Image,
    pub artifact: Option<models::Artifact>,
}

/// The column titles of `db jobs`.
pub open spec fn jobs_titles() -> Seq<Seq<char>> {
    seq![
        "Submit"@,
        "Job"@,
        "Time"@,
        "Host"@,
        "Ok?"@,
        "Package"@,
        "Version"@,
        "Distro"@,
        "Type"@,
    ]
}

/// The mark for a verdict.
pub open spec fn success_mark(verdict: JobResult) -> Seq<char> {
    match verdict {
        JobResult::Success => "yes"@,
        JobResult::Errored => "no"@,
        JobResult::Unknown => "?"@,
    }
}

/// The kind of an artifact: what stands behind the last full stop of its
/// path, in upper case; a hyphen where the job made no artifact.
pub open spec fn artifact_type(artifact: Option<models::Artifact>) -> Seq<char> {
    match artifact {
        Some(a) => uppercase(after_last(a.path@, '.')),
        None => "-"@,
    }
}

/// The row of a job; none where its submit's time cannot be shown.
pub open spec fn jobs_row(record: JobsRecord, images: Seq<ContainerImage>) -> Option<
    Seq<Seq<char>>,
> {
    match datetime_seconds_text(record.submit.submit_time.secs, record.submit.submit_time.nanos) {
        None => None,
        Some(time) => Some(
            seq![
                uuid_text(record.submit.uuid),
                uuid_text(record.job.uuid),
                time,
                record.endpoint.name@,
                success_mark(job_verdict(record.job)),
                record.package.name@,
                record.package.version@,
                spec_shorten(images, record.image.name@),
                artifact_type(record.artifact),
            ],
        ),
    }
}

fn jobs_row_of(record: &JobsRecord, lookup: &ImageNameLookup) -> (row: Option<Vec<String>>)
    ensures
        match row {
            Some(cells) => jobs_row(*record, lookup.images()) == Some(texts(cells@)),
            None => jobs_row(*record, lookup.images()).is_none(),
        },
{
    let time = match record.submit.submit_time.to_seconds_text() {
        Some(t) => t,
        None => {
            return None;
        },
    };
    let success = match ParsedLog::from_str(record.job.log_text.as_str()).is_successfull() {
        JobResult::Success => String::from_str("yes"),
        JobResult::Errored => String::from_str("no"),
        JobResult::Unknown => String::from_str("?"),
    };
    let kind = match &record.artifact {
        Some(a) => {
            let extension = text_after_last(a.path.as_str(), '.');
            to_uppercase(extension.as_str())
        },
        None => String::from_str("-"),
    };
    let cells = vec![
        format_uuid(record.submit.uuid),
        format_uuid(record.job.uuid),
        time,
        record.endpoint.name.clone(),
        success,
        record.package.name.clone(),
        record.package.version.clone(),
        lookup.shorten(record.image.name.as_str()),
        kind,
    ];
    proof {
        assert(texts(cells@) =~= jobs_row(*record, lookup.images()).unwrap());
    }
    Some(cells)
}

/// The rows of `db jobs`: one for each job read, the last read first.
pub open spec fn jobs_rows(data: Seq<JobsRecord>, images: Seq<ContainerImage>) -> Seq<
    Seq<Seq<char>>,
> {
    Seq::new(data.len(), |i: int| jobs_row(data[data.len() - 1 - i], images).unwrap())
}

/// Shapes what `db jobs` prints: the jobs that the query gave, newest
/// first, are listed oldest first.
pub fn jobs(data: &Vec<JobsRecord>, lookup: &ImageNameLookup, csv: bool) -> (r: Result<
    Listing,
    ReportError,
>)
    ensures
        match r {
            Ok(l) => (forall|i: int|
                0 <= i < data@.len() ==> jobs_row(#[trigger] data@[i], lookup.images()).is_some())
                && is_listing(l, jobs_titles(), jobs_rows(data@, lookup.images()), csv),
            Err(ReportError::TimestampOutOfRange) => exists|i: int|
                0 <= i < data@.len() && jobs_row(#[trigger] data@[i], lookup.images()).is_none(),
        },
{
    let names = vec!["Submit", "Job", "Time", "Host", "Ok?", "Package", "Version", "Distro", "Type"];
    let header = mk_header(names);
    proof {
        assert(titles(names@) =~= jobs_titles());
    }
    let n = data.len();
    let mut rows: Vec<Vec<String>> = Vec::new();
    let mut i: usize = n;
    while i > 0
        invariant
            n == data@.len(),
            i <= n,
            rows@.len() == n - i,
            forall|j: int| i <= j < n ==> jobs_row(#[trigger] data@[j], lookup.images()).is_some(),
            forall|k: int|
                0 <= k < n - i ==> Some(texts((#[trigger] rows@[k])@)) == jobs_row(
                    data@[n - 1 - k],
                    lookup.images(),
                ),
        decreases i,
    {
        i = i - 1;
        match jobs_row_of(&data[i], lookup) {
            Some(cells) => {
                rows.push(cells);
            },
            None => {
                return Err(ReportError::TimestampOutOfRange);
            },
        }
    }
    proof {
        assert(rows_texts(rows@) =~= jobs_rows(data@, lookup.images()));
    }
    Ok(listing(header, rows, csv))
}

} // verus!
