//! `db artifacts`, `db envvars`, `db images` and `db log-of`.

use crate::commands::db::jobs::QueryError;
use crate::commands::db::{get_limit, spec_limit};
use crate::commands::util::{is_listing, listing, mk_header, rows_texts, titles};
use crate::commands::util::{Listing, ReportError};
use crate::db::models;
use crate::log::item::display_text;
use crate::log::parsed::{parse_spec, ParsedLog};
use crate::util::ident::{format_uuid, uuid_text};
use crate::util::text::texts;
use crate::util::time::datetime_text;
use vstd::prelude::*;
use vstd::string::StringExecFns;
use vstd::utf8::encode_utf8;

verus! {

/// The query behind `db artifacts`: the newest `limit` artifacts, of the
/// job where one is given.
#[derive(Debug, Clone, Copy)]
pub struct ArtifactsQuery {
    pub job_uuid: Option<u128>,
    pub limit: i64,
}

/// Turns the options of `db artifacts` into the query to run.
pub fn artifacts_query(job_uuid: Option<u128>, limit: Option<usize>, default_limit: usize) -> (r:
    Result<ArtifactsQuery, QueryError>)
    ensures
        match r {
            Ok(query) => query.job_uuid == job_uuid && query.limit == spec_limit(
                limit,
                default_limit,
            ),
            Err(e) => e == QueryError::LimitOutOfRange && spec_limit(limit, default_limit)
                > i64::MAX,
        },
{
    match get_limit(limit, default_limit) {
        Ok(limit) => Ok(ArtifactsQuery { job_uuid, limit }),
        Err(_) => Err(QueryError::LimitOutOfRange),
    }
}

/// The column titles of `db artifacts`.
pub open spec fn artifacts_titles() -> Seq<Seq<char>> {
    seq!["Path"@, "Released"@, "Job"@]
}

/// The row of an artifact: its path, the date of its release or `no`, and
/// its job. None where the date cannot be shown.
pub open spec fn artifacts_row(record: (models::Artifact, models::Job, Option<models::Release>)) -> Option<
    Seq<Seq<char>>,
> {
    match record.2 {
        None => Some(seq![record.0.path@, "no"@, uuid_text(record.1.uuid)]),
        Some(release) => match datetime_text(release.release_date.secs, release.release_date.nanos) {
            None => None,
            Some(date) => Some(seq![record.0.path@, date, uuid_text(record.1.uuid)]),
        },
    }
}

/// The rows of `db artifacts`: one for each artifact read, the last read
/// first.
pub open spec fn artifacts_rows(
    data: Seq<(models::Artifact, models::Job, Option<models::Release>)>,
) -> Seq<Seq<Seq<char>>> {
    Seq::new(data.len(), |i: int| artifacts_row(data[data.len() - 1 - i]).unwrap())
}

fn artifacts_row_of(record: &(models::Artifact, models::Job, Option<models::Release>)) -> (row:
    Option<Vec<String>>)
    ensures
        match row {
            Some(cells) => artifacts_row(*record) == Some(texts(cells@)),
            None => artifacts_row(*record).is_none(),
        },
{
    let released = match &record.2 {
        None => String::from_str("no"),
        Some(release) => match release.release_date.to_text() {
            Some(date) => date,
            None => {
                return None;
            },
        },
    };
    let cells = vec![record.0.path.clone(), released, format_uuid(record.1.uuid)];
    proof {
        assert(texts(cells@) =~= artifacts_row(*record).unwrap());
    }
    Some(cells)
}

/// Shapes what `db artifacts` prints: the artifacts that the query gave,
/// newest first, are listed oldest first.
pub fn artifacts(data: &Vec<(models::Artifact, models::Job, Option<models::Release>)>, csv: bool) -> (r:
    Result<Listing, ReportError>)
    ensures
        match r {
            Ok(l) => (forall|i: int|
                0 <= i < data@.len() ==> artifacts_row(#[trigger] data@[i]).is_some())
                && is_listing(l, artifacts_titles(), artifacts_rows(data@), csv),
            Err(ReportError::TimestampOutOfRange) => exists|i: int|
                0 <= i < data@.len() && artifacts_row(#[trigger] data@[i]).is_none(),
        },
{
    let names = vec!["Path", "Released", "Job"];
    let header = mk_header(names);
    proof {
        assert(titles(names@) =~= artifacts_titles());
    }
    let n = data.len();
    let mut rows: Vec<Vec<String>> = Vec::new();
    let mut i: usize = n;
    while i > 0
        invariant
            n == data@.len(),
            i <= n,
            rows@.len() == n - i,
            forall|j: int| i <= j < n ==> artifacts_row(#[trigger] data@[j]).is_some(),
            forall|k: int|
                0 <= k < n - i ==> Some(texts((#[trigger] rows@[k])@)) == artifacts_row(
                    data@[n - 1 - k],
                ),
        decreases i,
    {
        i = i - 1;
        match artifacts_row_of(&data[i]) {
            Some(cells) => {
                rows.push(cells);
            },
            None => {
                return Err(ReportError::TimestampOutOfRange);
            },
        }
    }
    proof {
        assert(rows_texts(rows@) =~= artifacts_rows(data@));
    }
    Ok(listing(header, rows, csv))
}

/// The rows of `db envvars`: name and value of each variable, in order.
pub open spec fn envvars_rows(data: Seq<models::EnvVar>) -> Seq<Seq<Seq<char>>> {
    Seq::new(data.len(), |i: int| seq![data[i].name@, data[i].value@])
}

/// Shapes what `db envvars` prints.
pub fn envvars(data: &Vec<models::EnvVar>, csv: bool) -> (l: Listing)
    ensures
        is_listing(l, seq!["Name"@, "Value"@], envvars_rows(data@), csv),
{
    let names = vec!["Name", "Value"];
    let header = mk_header(names);
    proof {
        assert(titles(names@) =~= seq!["Name"@, "Value"@]);
    }
    let mut rows: Vec<Vec<String>> = Vec::new();
    let mut i: usize = 0;
    while i < data.len()
        invariant
            i <= data.len(),
            rows@.len() == i,
            forall|k: int|
                0 <= k < i ==> texts((#[trigger] rows@[k])@) == seq![data@[k].name@, data@[k].value@],
        decreases data.len() - i,
    {
        let cells = vec![data[i].name.clone(), data[i].value.clone()];
        proof {
            assert(texts(cells@) =~= seq![data@[i as int].name@, data@[i as int].value@]);
        }
        rows.push(cells);
        i = i + 1;
    }
    proof {
        assert(rows_texts(rows@) =~= envvars_rows(data@));
    }
    listing(header, rows, csv)
}

/// The rows of `db images`: the name of each image, in order.
pub open spec fn images_rows(data: Seq<models::Image>) -> Seq<Seq<Seq<char>>> {
    Seq::new(data.len(), |i: int| seq![data[i].name@])
}

/// Shapes what `db images` prints.
pub fn images(data: &Vec<models::Image>, csv: bool) -> (l: Listing)
    ensures
        is_listing(l, seq!["Name"@], images_rows(data@), csv),
{
    let names = vec!["Name"];
    let header = mk_header(names);
    proof {
        assert(titles(names@) =~= seq!["Name"@]);
    }
    let mut rows: Vec<Vec<String>> = Vec::new();
    let mut i: usize = 0;
    while i < data.len()
        invariant
            i <= data.len(),
            rows@.len() == i,
            forall|k: int| 0 <= k < i ==> texts((#[trigger] rows@[k])@) == seq![data@[k].name@],
        decreases data.len() - i,
    {
        let cells = vec![data[i].name.clone()];
        proof {
            assert(texts(cells@) =~= seq![data@[i as int].name@]);
        }
        rows.push(cells);
        i = i + 1;
    }
    proof {
        assert(rows_texts(rows@) =~= images_rows(data@));
    }
    listing(header, rows, csv)
}

/// The lines that `db log-of` prints of a job's recorded log: one for each
/// item of the parsed log, as it is shown.
pub fn log_of(log_text: &str) -> (lines: Vec<String>)
    ensures
        texts(lines@) == parse_spec(encode_utf8(log_text@)).map_values(|item| display_text(item)),
{
    let lines = ParsedLog::from_str(log_text).lines();
    proof {
        assert(texts(lines@) =~= parse_spec(encode_utf8(log_text@)).map_values(
            |item| display_text(item),
        ));
    }
    lines
}

} // verus!
