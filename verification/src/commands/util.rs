//! What the listing commands share: tables of text cells.

use crate::util::text::texts;
use vstd::prelude::*;
use vstd::string::StringExecFns;

verus! {

/// A table as a listing command hands it to its printer, which writes it as
/// comma-separated values or as a drawn table: either way the same header
/// and the same rows.
#[derive(Debug, Clone)]
pub struct Table {
    pub header: Vec<String>,
    pub rows: Vec<Vec<String>>,
    pub csv: bool,
}

/// What a listing command prints.
#[derive(Debug, Clone)]
pub enum Listing {
    /// The query found nothing: a note says so, and no table is printed.
    Nothing,
    /// The rows that the query found.
    Rows(Table),
}

/// The texts of each row.
pub open spec fn rows_texts(rows: Seq<Vec<String>>) -> Seq<Seq<Seq<char>>> {
    rows.map_values(|row: Vec<String>| texts(row@))
}

/// The texts of some column titles.
pub open spec fn titles(names: Seq<&str>) -> Seq<Seq<char>> {
    names.map_values(|name: &str| name@)
}

/// Makes the header of a table from its column titles.
pub fn mk_header(names: Vec<&str>) -> (header: Vec<String>)
    ensures
        texts(header@) == titles(names@),
{
    let mut header: Vec<String> = Vec::new();
    let mut i: usize = 0;
    while i < names.len()
        invariant
            i <= names.len(),
            header@.len() == i,
            forall|j: int| 0 <= j < i ==> (#[trigger] header@[j])@ == names@[j]@,
        decreases names.len() - i,
    {
        header.push(String::from_str(names[i]));
        i = i + 1;
    }
    proof {
        assert(texts(header@) =~= titles(names@));
    }
    header
}

/// What `display_data` hands on: the table itself.
pub open spec fn spec_table(header: Seq<Seq<char>>, rows: Seq<Seq<Seq<char>>>, csv: bool, t: Table) -> bool {
    &&& texts(t.header@) == header
    &&& rows_texts(t.rows@) == rows
    &&& t.csv == csv
}

/// Puts a header and rows together for the printer.
pub fn display_data(header: Vec<String>, rows: Vec<Vec<String>>, csv: bool) -> (t: Table)
    ensures
        spec_table(texts(header@), rows_texts(rows@), csv, t),
{
    Table { header, rows, csv }
}

/// Whether `l` is the listing of `rows` under `header`: a note where there
/// are no rows, else the table.
pub open spec fn is_listing(
    l: Listing,
    header: Seq<Seq<char>>,
    rows: Seq<Seq<Seq<char>>>,
    csv: bool,
) -> bool {
    match l {
        Listing::Nothing => rows.len() == 0,
        Listing::Rows(t) => rows.len() > 0 && spec_table(header, rows, csv, t),
    }
}

/// Why a listing could not be made.
#[derive(Debug, Clone, Copy, PartialEq, Eq, Structural)]
pub enum ReportError {
    /// A recorded time is outside the range of dates that can be shown.
    TimestampOutOfRange,
}

/// The listing of some rows: a note where there are none, else the table.
pub fn listing(header: Vec<String>, rows: Vec<Vec<String>>, csv: bool) -> (l: Listing)
    ensures
        is_listing(l, texts(header@), rows_texts(rows@), csv),
{
    if rows.len() == 0 {
        Listing::Nothing
    } else {
        Listing::Rows(display_data(header, rows, csv))
    }
}

/// A listing as comma-separated values and the same listing as a drawn
/// table have the same header and the same rows.
pub proof fn lemma_csv_same_as_table(
    as_csv: Listing,
    as_table: Listing,
    header: Seq<Seq<char>>,
    rows: Seq<Seq<Seq<char>>>,
)
    requires
        is_listing(as_csv, header, rows, true),
        is_listing(as_table, header, rows, false),
    ensures
        as_csv is Nothing <==> as_table is Nothing,
        as_csv matches Listing::Rows(csv) ==> as_table matches Listing::Rows(table) && texts(
            csv.header@,
        ) == texts(table.header@) && rows_texts(csv.rows@) == rows_texts(table.rows@),
{
}

} // verus!
