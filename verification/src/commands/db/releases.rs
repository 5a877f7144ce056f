//! `db releases`: the artifacts that were released.

use crate::commands::db::jobs::{date_error, get_date_filter, QueryError};
use crate::commands::db::submits::option_text;
use crate::commands::db::{get_limit, spec_limit};
use crate::commands::util::{display_data, mk_header, rows_texts, spec_table, titles};
use crate::commands::util::{ReportError, Table};
use crate::db::models;
use crate::util::path::{join_path, spec_join_path};
use crate::util::text::texts;
use crate::util::time::{datetime_text, spec_parse_date, Timestamp};
use vstd::prelude::*;
use vstd::string::StringExecFns;

verus! {

/// The options of `db releases`, as the command line gives them.
#[derive(Debug, Clone)]
pub struct ReleasesOptions {
    pub csv: bool,
    pub limit: Option<usize>,
    pub older_than: Option<String>,
    pub newer_than: Option<String>,
    pub store: Option<String>,
    pub package: Option<String>,
}

/// The query behind `db releases`: the newest `limit` releases that are
/// older and newer than the dates, in the store and of the package, where
/// these are given.
#[derive(Debug, Clone)]
pub struct ReleasesQuery {
    pub older_than: Option<Timestamp>,
    pub newer_than: Option<Timestamp>,
    pub store: Option<String>,
    pub package: Option<String>,
    pub limit: i64,
}

/// The date that an option gives, where it is present and well-formed.
pub open spec fn option_date(value: Option<String>) -> Option<Timestamp> {
    match value {
        Some(text) => match spec_parse_date(text@) {
            Ok(time) => Some(time),
            Err(_) => None,
        },
        None => None,
    }
}

/// Whether `r` is what the options of `db releases` give: the query, or
/// the first thing that is wrong with them, the limit being read first,
/// then the dates.
pub open spec fn is_releases_query(
    r: Result<ReleasesQuery, QueryError>,
    opts: ReleasesOptions,
    default_limit: usize,
) -> bool {
    let limit = spec_limit(opts.limit, default_limit);
    match r {
        Err(QueryError::LimitOutOfRange) => limit > i64::MAX,
        Err(QueryError::OlderThan(e)) => limit <= i64::MAX && date_error(opts.older_than) == Some(e),
        Err(QueryError::NewerThan(e)) => limit <= i64::MAX && date_error(opts.older_than).is_none()
            && date_error(opts.newer_than) == Some(e),
        Err(_) => false,
        Ok(query) => {
            &&& limit <= i64::MAX
            &&& date_error(opts.older_than).is_none()
            &&& date_error(opts.newer_than).is_none()
            &&& query.limit == limit
            &&& query.older_than == option_date(opts.older_than)
            &&& query.newer_than == option_date(opts.newer_than)
            &&& option_text(query.store) == option_text(opts.store)
            &&& option_text(query.package) == option_text(opts.package)
        },
    }
}

/// Turns the options of `db releases` into the query to run.
pub fn releases_query(opts: &ReleasesOptions, default_limit: usize) -> (r: Result<
    ReleasesQuery,
    QueryError,
>)
    ensures
        is_releases_query(r, *opts, default_limit),
{
    let limit = match get_limit(opts.limit, default_limit) {
        Ok(limit) => limit,
        Err(_) => {
            return Err(QueryError::LimitOutOfRange);
        },
    };
    let older_than = match get_date_filter(&opts.older_than) {
        Ok(t) => t,
        Err(e) => {
            return Err(QueryError::OlderThan(e));
        },
    };
    let newer_than = match get_date_filter(&opts.newer_than) {
        Ok(t) => t,
        Err(e) => {
            return Err(QueryError::NewerThan(e));
        },
    };
    let store = match &opts.store {
        Some(name) => Some(name.clone()),
        None => None,
    };
    let package = match &opts.package {
        Some(name) => Some(name.clone()),
        None => None,
    };
    Ok(ReleasesQuery { older_than, newer_than, store, package, limit })
}

/// A release as `db releases` reads it, and whether the released file is
/// at its place in the releases directory.
#[derive(Debug, Clone)]
pub struct ReleaseRecord {
    pub artifact: models::Artifact,
    pub package: models::Package,
    pub release: models::Release,
    pub store: models::ReleaseStore,
    pub available: bool,
}

/// The path of a released file below the releases directory.
pub open spec fn relative_path(store: models::ReleaseStore, artifact: models::Artifact) -> Seq<char> {
    spec_join_path(store.store_name@, artifact.path@)
}

/// The path of a released file: the releases directory, the store's name,
/// the artifact's path.
pub open spec fn spec_release_path(
    directory: Seq<char>,
    store: models::ReleaseStore,
    artifact: models::Artifact,
) -> Seq<char> {
    spec_join_path(spec_join_path(directory, store.store_name@), artifact.path@)
}

/// The path at which a released file is expected.
pub fn release_path(directory: &str, store: &models::ReleaseStore, artifact: &models::Artifact) -> (r:
    String)
    ensures
        r@ == spec_release_path(directory@, *store, *artifact),
{
    let in_store = join_path(directory, store.store_name.as_str());
    join_path(in_store.as_str(), artifact.path.as_str())
}

/// The column titles of `db releases`.
pub open spec fn releases_titles() -> Seq<Seq<char>> {
    seq!["Package"@, "Version"@, "Date"@, "Path"@]
}

/// The row of a release: the package, the date and the file's path, or a
/// note in its place where the file is not there. None where the date
/// cannot be shown.
pub open spec fn releases_row(record: ReleaseRecord, directory: Seq<char>) -> Option<Seq<Seq<char>>> {
    match datetime_text(record.release.release_date.secs, record.release.release_date.nanos) {
        None => None,
        Some(date) => Some(
            seq![
                record.package.name@,
                record.package.version@,
                date,
                if record.available {
                    spec_release_path(directory, record.store, record.artifact)
                } else {
                    relative_path(record.store, record.artifact) + " is not available locally"@
                },
            ],
        ),
    }
}

/// The rows of `db releases`: one for each release read, the last read
/// first.
pub open spec fn releases_rows(data: Seq<ReleaseRecord>, directory: Seq<char>) -> Seq<Seq<Seq<char>>> {
    Seq::new(data.len(), |i: int| releases_row(data[data.len() - 1 - i], directory).unwrap())
}

fn releases_row_of(record: &ReleaseRecord, directory: &str) -> (row: Option<Vec<String>>)
    ensures
        match row {
            Some(cells) => releases_row(*record, directory@) == Some(texts(cells@)),
            None => releases_row(*record, directory@).is_none(),
        },
{
    let date = match record.release.release_date.to_text() {
        Some(t) => t,
        None => {
            return None;
        },
    };
    let place = if record.available {
        release_path(directory, &record.store, &record.artifact)
    } else {
        join_path(record.store.store_name.as_str(), record.artifact.path.as_str()).concat(
            " is not available locally",
        )
    };
    let cells = vec![record.package.name.clone(), record.package.version.clone(), date, place];
    proof {
        assert(texts(cells@) =~= releases_row(*record, directory@).unwrap());
    }
    Some(cells)
}

/// Shapes what `db releases` prints: the releases that the query gave,
/// newest first, are listed oldest first.
pub fn releases(data: &Vec<ReleaseRecord>, directory: &str, csv: bool) -> (r: Result<
    Table,
    ReportError,
>)
    ensures
        match r {
            Ok(table) => (forall|i: int|
                0 <= i < data@.len() ==> releases_row(#[trigger] data@[i], directory@).is_some())
                && spec_table(releases_titles(), releases_rows(data@, directory@), csv, table),
            Err(ReportError::TimestampOutOfRange) => exists|i: int|
                0 <= i < data@.len() && releases_row(#[trigger] data@[i], directory@).is_none(),
        },
{
    let names = vec!["Package", "Version", "Date", "Path"];
    let header = mk_header(names);
    proof {
        assert(titles(names@) =~= releases_titles());
    }
    let n = data.len();
    let mut rows: Vec<Vec<String>> = Vec::new();
    let mut i: usize = n;
    while i > 0
        invariant
            n == data@.len(),
            i <= n,
            rows@.len() == n - i,
            forall|j: int| i <= j < n ==> releases_row(#[trigger] data@[j], directory@).is_some(),
            forall|k: int|
                0 <= k < n - i ==> Some(texts((#[trigger] rows@[k])@)) == releases_row(
                    data@[n - 1 - k],
                    directory@,
                ),
        decreases i,
    {
        i = i - 1;
        match releases_row_of(&data[i], directory) {
            Some(cells) => {
                rows.push(cells);
            },
            None => {
                return Err(ReportError::TimestampOutOfRange);
            },
        }
    }
    proof {
        assert(rows_texts(rows@) =~= releases_rows(data@, directory@));
    }
    Ok(display_data(header, rows, csv))
}

} // verus!
