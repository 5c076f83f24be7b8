//! The first half of a run: read the input and file every row under its
//! year. What is left to do afterwards is to render bucket after bucket and
//! to write each document out.

use vstd::prelude::*;
use crate::error::{ParseError, ParseFailure};
use crate::partition::{
    distinct_years, group_by_year, lemma_distinct_years, partition, well_keyed, years_of,
    YearBucketView, YearBuckets,
};
use crate::reader::{csv_content, parse_rows, parsed};
use crate::record::InputRowView;
use crate::schema::{place_of, Column};
use crate::render::{file_name, lemma_file_names_differ};

verus! {

/// The buckets of an input, or what is wrong with the input.
pub open spec fn accumulated(input: Seq<u8>) -> Result<Seq<YearBucketView>, ParseFailure> {
    match parsed(csv_content(input)) {
        Ok(rows) => Ok(partition(rows)),
        Err(failure) => Err(failure),
    }
}

/// `outcome` is what [`accumulate`] returns for `input`.
pub open spec fn accumulates(input: Seq<u8>, outcome: Result<YearBuckets, ParseError>) -> bool {
    match outcome {
        Ok(buckets) => accumulated(input) == Ok::<Seq<YearBucketView>, ParseFailure>(buckets@)
            && well_keyed(buckets@),
        Err(error) => accumulated(input) == Err::<Seq<YearBucketView>, ParseFailure>(error@),
    }
}

/// Reads an input table and groups its rows by year. If anything is wrong
/// with the input, there are no buckets, and so nothing to write.
pub fn accumulate(input: &[u8]) -> (buckets: Result<YearBuckets, ParseError>)
    ensures
        csv_content(input@).header matches Some(header) && (exists|column: Column|
            #[trigger] place_of(header, column) is None) ==> buckets matches Err(
            ParseError::MissingColumn { .. },
        ),
        accumulates(input@, buckets),
{
    match parse_rows(input) {
        Ok(rows) => Ok(group_by_year(rows)),
        Err(error) => Err(error),
    }
}

/// The files of some rows are those of the years of the rows: every year
/// that a row has gets a file, every file is that of a year that some row
/// has, and no two files have the same name.
pub proof fn lemma_one_file_per_year(rows: Seq<InputRowView>)
    ensures
        forall|row: int|
            0 <= row < rows.len() ==> exists|at: int|
                0 <= at < partition(rows).len() && (#[trigger] partition(rows)[at]).year
                    == (#[trigger] rows[row]).year,
        forall|at: int|
            0 <= at < partition(rows).len() ==> exists|row: int|
                0 <= row < rows.len() && (#[trigger] rows[row]).year == (#[trigger] partition(
                    rows,
                )[at]).year,
        forall|one: int, other: int|
            0 <= one < other < partition(rows).len() ==> file_name(
                (#[trigger] partition(rows)[one]).year,
            ) != file_name((#[trigger] partition(rows)[other]).year),
{
    let buckets = partition(rows);
    let years = distinct_years(rows);
    lemma_distinct_years(rows);
    assert forall|row: int| 0 <= row < rows.len() implies exists|at: int|
        0 <= at < buckets.len() && (#[trigger] buckets[at]).year == (#[trigger] rows[row]).year by {
        assert(years_of(rows)[row] == rows[row].year);
        assert(years.contains(rows[row].year));
        let at = choose|at: int| 0 <= at < years.len() && years[at] == rows[row].year;
        assert(buckets[at].year == rows[row].year);
    }
    assert forall|at: int| 0 <= at < buckets.len() implies exists|row: int|
        0 <= row < rows.len() && (#[trigger] rows[row]).year == (#[trigger] buckets[at]).year by {
        assert(years.contains(buckets[at].year));
        let row = choose|row: int|
            0 <= row < years_of(rows).len() && years_of(rows)[row] == buckets[at].year;
        assert(rows[row].year == buckets[at].year);
    }
    assert forall|one: int, other: int| 0 <= one < other < buckets.len() implies file_name(
        (#[trigger] buckets[one]).year,
    ) != file_name((#[trigger] buckets[other]).year) by {
        assert(years[one] != years[other]);
        lemma_file_names_differ(buckets[one].year, buckets[other].year);
    }
}

/// A second run over an input that has not changed ends as the first did:
/// if the first found something wrong with the input, the second finds the
/// same; if not, both file the same subjects in the same buckets. A bucket
/// that is rendered again gives the same file, so the files of the two runs
/// are the same, name for name and text for text.
pub proof fn lemma_rerun_is_identical(
    input: Seq<u8>,
    first: Result<YearBuckets, ParseError>,
    second: Result<YearBuckets, ParseError>,
)
    requires
        accumulates(input, first),
        accumulates(input, second),
    ensures
        match (first, second) {
            (Ok(one), Ok(other)) => one@ == other@,
            (Err(one), Err(other)) => one@ == other@,
            _ => false,
        },
{
}

} // verus!
