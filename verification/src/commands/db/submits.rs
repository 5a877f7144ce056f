//! `db submits`: the submits that the database holds, filtered.

use crate::commands::db::jobs::QueryError;
use crate::commands::db::{get_limit, spec_limit};
use crate::commands::util::{is_listing, listing, mk_header, rows_texts, titles};
use crate::commands::util::{Listing, ReportError};
use crate::db::models;
use crate::util::docker::{spec_expand, ContainerImage, ImageNameLookup};
use crate::util::ident::{format_uuid, uuid_text};
use crate::util::text::texts;
use crate::util::time::datetime_text;
use vstd::prelude::*;

verus! {

/// The options of `db submits`, as the command line gives them.
#[derive(Debug, Clone)]
pub struct SubmitsOptions {
    pub csv: bool,
    pub limit: Option<usize>,
    pub for_commit: Option<String>,
    pub image: Option<String>,
    pub with_pkg: Option<String>,
    pub for_pkg: Option<String>,
}

/// Which submits are listed.
#[derive(Debug, Clone)]
pub enum SubmitSelection {
    /// Those with a job for the package of this name, whatever they were
    /// made for. The database is asked twice: for the identifiers of these
    /// submits, then for the submits with the package they were made for.
    WithPackage(String),
    /// Those made for the package of this name.
    ForPackage(String),
    /// All.
    All,
}

/// The query behind `db submits`: the newest `limit` submits of the
/// selection that were made from the commit and for the image, where these
/// are given.
#[derive(Debug, Clone)]
pub struct SubmitsQuery {
    pub commit: Option<String>,
    pub image: Option<String>,
    pub selection: SubmitSelection,
    pub limit: i64,
}

/// The text of an optional string.
pub open spec fn option_text(value: Option<String>) -> Option<Seq<char>> {
    match value {
        Some(text) => Some(text@),
        None => None,
    }
}

/// Whether `selection` is what the options select: `--with-pkg` before
/// `--for-pkg`, and all submits where neither is given.
pub open spec fn is_selection(selection: SubmitSelection, opts: SubmitsOptions) -> bool {
    match selection {
        SubmitSelection::WithPackage(name) => option_text(opts.with_pkg) == Some(name@),
        SubmitSelection::ForPackage(name) => opts.with_pkg.is_none() && option_text(opts.for_pkg)
            == Some(name@),
        SubmitSelection::All => opts.with_pkg.is_none() && opts.for_pkg.is_none(),
    }
}

/// The full name of the image that the options ask for, if any.
pub open spec fn spec_image_filter(image: Option<String>, images: Seq<ContainerImage>) -> Option<
    Seq<char>,
> {
    match image {
        Some(name) => spec_expand(images, name@),
        None => None,
    }
}

/// Whether `r` is what the options of `db submits` give: the query, or the
/// first thing that is wrong with them, the limit being read first.
pub open spec fn is_submits_query(
    r: Result<SubmitsQuery, QueryError>,
    opts: SubmitsOptions,
    images: Seq<ContainerImage>,
    default_limit: usize,
) -> bool {
    let limit = spec_limit(opts.limit, default_limit);
    let unknown_image = opts.image.is_some() && spec_image_filter(opts.image, images).is_none();
    match r {
        Err(QueryError::LimitOutOfRange) => limit > i64::MAX,
        Err(QueryError::UnknownImage) => limit <= i64::MAX && unknown_image,
        Err(_) => false,
        Ok(query) => {
            &&& limit <= i64::MAX
            &&& !unknown_image
            &&& query.limit == limit
            &&& option_text(query.commit) == option_text(opts.for_commit)
            &&& option_text(query.image) == spec_image_filter(opts.image, images)
            &&& is_selection(query.selection, opts)
        },
    }
}

/// Turns the options of `db submits` into the query to run.
pub fn submits_query(opts: &SubmitsOptions, lookup: &ImageNameLookup, default_limit: usize) -> (r:
    Result<SubmitsQuery, QueryError>)
    ensures
        is_submits_query(r, *opts, lookup.images(), default_limit),
{
    let limit = match get_limit(opts.limit, default_limit) {
        Ok(limit) => limit,
        Err(_) => {
            return Err(QueryError::LimitOutOfRange);
        },
    };
    let commit = match &opts.for_commit {
        Some(hash) => Some(hash.clone()),
        None => None,
    };
    let image = match &opts.image {
        Some(name) => match lookup.expand(name.as_str()) {
            Ok(full) => Some(full),
            Err(_) => {
                return Err(QueryError::UnknownImage);
            },
        },
        None => None,
    };
    let selection = match &opts.with_pkg {
        Some(name) => SubmitSelection::WithPackage(name.clone()),
        None => match &opts.for_pkg {
            Some(name) => SubmitSelection::ForPackage(name.clone()),
            None => SubmitSelection::All,
        },
    };
    Ok(SubmitsQuery { commit, image, selection, limit })
}

/// The column titles of `db submits`.
pub open spec fn submits_titles() -> Seq<Seq<char>> {
    seq!["Time"@, "UUID"@, "For Package"@, "For Package Version"@]
}

/// The row of a submit with the package it was made for; none where its
/// time cannot be shown.
pub open spec fn submits_row(record: (models::Submit, models::Package)) -> Option<Seq<Seq<char>>> {
    match datetime_text(record.0.submit_time.secs, record.0.submit_time.nanos) {
        None => None,
        Some(time) => Some(seq![time, uuid_text(record.0.uuid), record.1.name@, record.1.version@]),
    }
}

/// The rows of `db submits`: one for each submit read, the last read first.
pub open spec fn submits_rows(data: Seq<(models::Submit, models::Package)>) -> Seq<Seq<Seq<char>>> {
    Seq::new(data.len(), |i: int| submits_row(data[data.len() - 1 - i]).unwrap())
}

fn submits_row_of(record: &(models::Submit, models::Package)) -> (row: Option<Vec<String>>)
    ensures
        match row {
            Some(cells) => submits_row(*record) == Some(texts(cells@)),
            None => submits_row(*record).is_none(),
        },
{
    let time = match record.0.submit_time.to_text() {
        Some(t) => t,
        None => {
            return None;
        },
    };
    let cells = vec![time, format_uuid(record.0.uuid), record.1.name.clone(), record.1.version.clone()];
    proof {
        assert(texts(cells@) =~= submits_row(*record).unwrap());
    }
    Some(cells)
}

/// Shapes what `db submits` prints: the submits that the query gave,
/// newest first, are listed oldest first.
pub fn submits(data: &Vec<(models::Submit, models::Package)>, csv: bool) -> (r: Result<
    Listing,
    ReportError,
>)
    ensures
        match r {
            Ok(l) => (forall|i: int| 0 <= i < data@.len() ==> submits_row(#[trigger] data@[i]).is_some())
                && is_listing(l, submits_titles(), submits_rows(data@), csv),
            Err(ReportError::TimestampOutOfRange) => exists|i: int|
                0 <= i < data@.len() && submits_row(#[trigger] data@[i]).is_none(),
        },
{
    let names = vec!["Time", "UUID", "For Package", "For Package Version"];
    let header = mk_header(names);
    proof {
        assert(titles(names@) =~= submits_titles());
    }
    let n = data.len();
    let mut rows: Vec<Vec<String>> = Vec::new();
    let mut i: usize = n;
    while i > 0
        invariant
            n == data@.len(),
            i <= n,
            rows@.len() == n - i,
            forall|j: int| i <= j < n ==> submits_row(#[trigger] data@[j]).is_some(),
            forall|k: int|
                0 <= k < n - i ==> Some(texts((#[trigger] rows@[k])@)) == submits_row(
                    data@[n - 1 - k],
                ),
        decreases i,
    {
        i = i - 1;
        match submits_row_of(&data[i]) {
            Some(cells) => {
                rows.push(cells);
            },
            None => {
                return Err(ReportError::TimestampOutOfRange);
            },
        }
    }
    proof {
        assert(rows_texts(rows@) =~= submits_rows(data@));
    }
    Ok(listing(header, rows, csv))
}

} // verus!
