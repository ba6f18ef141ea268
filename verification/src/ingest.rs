//! Structural ingestion of one rater's submission file. A file is CSV data:
//! a header row followed by one record per rated post, each record holding
//! the post's title and the three raw ratings as text fields. This module
//! parses the data into records, resolves each title against the post
//! catalog, and reports exactly which record broke when one does. Turning
//! the rating fields into numbers is left to the caller.

use vstd::prelude::*;

use crate::catalog::{spec_resolve, resolve_title, Post};

verus! {

/// `csv::Error`, declared so that the parsing wrapper can return it.
#[verifier::external_type_specification]
#[verifier::external_body]
pub struct ExCsvError(csv::Error);

/// The records that CSV parsing yields for the given bytes (header row
/// excluded), or `None` when the data is not well-formed CSV.
pub uninterp spec fn csv_parse_of(data: Seq<u8>) -> Option<Seq<Seq<Seq<char>>>>;

/// Relies on `csv::Reader::from_reader` and `Reader::records`: with the
/// default configuration the first row is a header and is not yielded, each
/// later row is yielded as its string fields in order, and a malformed row
/// is an error. The outcome depends on the bytes alone.
#[verifier::external_body]
fn read_csv_rows(data: &[u8]) -> (r: Result<Vec<Vec<String>>, csv::Error>)
    ensures
        match r {
            Ok(rows) => csv_parse_of(data@) == Some(rows.deep_view()),
            Err(_) => csv_parse_of(data@) is None,
        },
{
    let mut rows = Vec::new();
    let mut rdr = csv::Reader::from_reader(data);
    for rec in rdr.records() {
        match rec {
            Ok(r) => rows.push(r.iter().map(|f| f.to_string()).collect()),
            Err(e) => return Err(e),
        }
    }
    Ok(rows)
}

/// What `str::trim` leaves of the given characters.
pub uninterp spec fn trim_of(s: Seq<char>) -> Seq<char>;

/// Relies on `str::trim`: drops leading and trailing whitespace; the result
/// depends on the characters alone.
#[verifier::external_body]
fn trim_str(s: &String) -> (r: String)
    ensures
        r@ == trim_of(s@),
{
    s.trim().to_string()
}

/// One resolved record of a rater's file: the catalog index of the rated
/// post and the three raw rating fields, still as text.
#[derive(Debug, Clone)]
pub struct RawRecord {
    pub post_id: usize,
    pub literary: String,
    pub thinking: String,
    pub mozheng: String,
}

/// Why a rater's file was rejected. A rejected file contributes nothing:
/// either the data is not well-formed CSV, or the named record (counting
/// from zero, header excluded) is too short or names an unknown title.
#[derive(Debug, Clone, Copy, PartialEq, Eq, Structural)]
pub enum IngestError {
    Csv,
    MissingFields { row: usize },
    UnknownTitle { row: usize },
}

/// A record has a title field and the three rating fields.
pub open spec fn row_shape_ok(row: Seq<Seq<char>>) -> bool {
    row.len() >= 4
}

/// A record's trimmed title names some catalog entry.
pub open spec fn row_resolves(posts: Seq<Post>, row: Seq<Seq<char>>) -> bool {
    spec_resolve(posts, trim_of(row[0])) is Some
}

pub open spec fn row_ok(posts: Seq<Post>, row: Seq<Seq<char>>) -> bool {
    row_shape_ok(row) && row_resolves(posts, row)
}

/// Every record before `n` is acceptable.
pub open spec fn rows_ok_upto(posts: Seq<Post>, rows: Seq<Seq<Seq<char>>>, n: int) -> bool {
    forall|k: int| 0 <= k < n ==> row_ok(posts, #[trigger] rows[k])
}

/// `rec` is exactly what the record `row` resolves to: the title field,
/// trimmed, resolves to `rec.post_id`, and the three rating fields are
/// carried over unchanged.
pub open spec fn record_matches_row(posts: Seq<Post>, row: Seq<Seq<char>>, rec: RawRecord) -> bool {
    &&& row_shape_ok(row)
    &&& spec_resolve(posts, trim_of(row[0])) == Some(rec.post_id as int)
    &&& rec.literary@ == row[1]
    &&& rec.thinking@ == row[2]
    &&& rec.mozheng@ == row[3]
}

/// Parse one rater's file against the catalog. Succeeds exactly when the
/// data is well-formed CSV and every record has the four fields and a title
/// that resolves; the first offending record otherwise names the error.
/// A file that rates the same title twice is not rejected: every record is
/// kept, in file order, and the caller decides what a duplicate means.
pub fn parse_rater_file(posts: &Vec<Post>, data: &[u8]) -> (r: Result<
    Vec<RawRecord>,
    IngestError,
>)
    ensures
        match r {
            Ok(recs) => {
                &&& csv_parse_of(data@) is Some
                &&& recs.len() == csv_parse_of(data@)->Some_0.len()
                &&& forall|k: int|
                    0 <= k < recs.len() ==> record_matches_row(
                        posts@,
                        csv_parse_of(data@)->Some_0[k],
                        #[trigger] recs[k],
                    )
            },
            Err(e) => match e {
                IngestError::Csv => csv_parse_of(data@) is None,
                IngestError::MissingFields { row } => {
                    &&& csv_parse_of(data@) is Some
                    &&& row < csv_parse_of(data@)->Some_0.len()
                    &&& !row_shape_ok(csv_parse_of(data@)->Some_0[row as int])
                    &&& rows_ok_upto(posts@, csv_parse_of(data@)->Some_0, row as int)
                },
                IngestError::UnknownTitle { row } => {
                    &&& csv_parse_of(data@) is Some
                    &&& row < csv_parse_of(data@)->Some_0.len()
                    &&& row_shape_ok(csv_parse_of(data@)->Some_0[row as int])
                    &&& !row_resolves(posts@, csv_parse_of(data@)->Some_0[row as int])
                    &&& rows_ok_upto(posts@, csv_parse_of(data@)->Some_0, row as int)
                },
            },
        },
{
    let rows = match read_csv_rows(data) {
        Ok(rows) => rows,
        Err(_) => {
            return Err(IngestError::Csv);
        },
    };
    let ghost rows_v: Seq<Seq<Seq<char>>> = rows.deep_view();
    let mut recs: Vec<RawRecord> = Vec::new();
    let mut k: usize = 0;
    while k < rows.len()
        invariant
            csv_parse_of(data@) == Some(rows_v),
            rows_v == rows.deep_view(),
            k <= rows.len(),
            recs.len() == k,
            rows_ok_upto(posts@, rows_v, k as int),
            forall|j: int|
                0 <= j < k ==> record_matches_row(posts@, rows_v[j], #[trigger] recs[j]),
        decreases rows.len() - k,
    {
        let row: &Vec<String> = &rows[k];
        proof {
            assert(rows_v[k as int] == row.deep_view());
            assert(forall|j: int|
                0 <= j < row.len() ==> row.deep_view()[j] == #[trigger] row[j]@);
        }
        if row.len() < 4 {
            return Err(IngestError::MissingFields { row: k });
        }
        let trimmed = trim_str(&row[0]);
        match resolve_title(posts, &trimmed) {
            Some(pid) => {
                let rec = RawRecord {
                    post_id: pid,
                    literary: row[1].clone(),
                    thinking: row[2].clone(),
                    mozheng: row[3].clone(),
                };
                recs.push(rec);
            },
            None => {
                return Err(IngestError::UnknownTitle { row: k });
            },
        }
        k += 1;
    }
    Ok(recs)
}

} // verus!
