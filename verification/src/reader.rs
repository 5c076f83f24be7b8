//! Reading the input table: the header row, then the data rows one by one,
//! each mapped to an [`InputRow`] by column name. The first row that cannot
//! be read ends the reading.

use vstd::prelude::*;
use vstd::string::to_string_from_display_ensures;
use crate::error::{ParseError, ParseFailure};
use crate::record::{InputRow, InputRowView};
use crate::schema::{columns_of, first_missing, lemma_first_missing, place_of, Column, Columns};

verus! {

/// The reader of the `csv` crate. Verus carries it through without looking
/// inside.
#[verifier::external_type_specification]
#[verifier::external_body]
#[verifier::reject_recursive_types(R)]
pub struct ExCsvReader<R>(csv::Reader<R>);

/// The error of the `csv` crate.
#[verifier::external_type_specification]
#[verifier::external_body]
pub struct ExCsvError(csv::Error);

/// A table as a `csv` reader gives it: the header row, which is the first
/// record of the input, and the records after it in file order. A row that
/// the reader reports as an error stands as `None`; every other row is the
/// sequence of its fields.
pub struct Table {
    pub header: Option<Seq<Seq<char>>>,
    pub records: Seq<Option<Seq<Seq<char>>>>,
}

/// What a `csv` reader with the default configuration makes of an input.
pub uninterp spec fn csv_content(input: Seq<u8>) -> Table;

/// What a reader holds: the header row of its input, and the records that it
/// has not handed out yet.
pub uninterp spec fn reader_content(reader: csv::Reader<&[u8]>) -> Table;

/// `csv::Reader::from_reader` on a byte slice: a reader with the default
/// configuration (comma-separated, first record is the header, all records
/// of one length, nothing trimmed). Nothing has been read from it yet, so it
/// holds all that [`csv_content`] names for the input.
#[verifier::external_body]
fn open_reader<'a>(input: &'a [u8]) -> (reader: csv::Reader<&'a [u8]>)
    ensures
        reader_content(reader) == csv_content(input@),
{
    csv::Reader::from_reader(input)
}

/// `csv::Reader::headers`: the first record of the input, as text. It fails
/// if that record is not valid UTF-8. Asking for the header takes none of
/// the data records away.
#[verifier::external_body]
fn read_header(reader: &mut csv::Reader<&[u8]>) -> (header: Result<Vec<String>, csv::Error>)
    ensures
        reader_content(*final(reader)) == reader_content(*old(reader)),
        match header {
            Ok(names) => reader_content(*old(reader)).header == Some(names.deep_view()),
            Err(_) => reader_content(*old(reader)).header is None,
        },
{
    Ok(reader.headers()?.iter().map(String::from).collect())
}

/// One step of the iterator `csv::Reader::records`: the next data record, an
/// error in its place, or `None` once the input is used up. Either of the
/// first two takes one record away from what the reader holds; the header
/// stays.
#[verifier::external_body]
fn next_record(reader: &mut csv::Reader<&[u8]>) -> (next: Option<Result<Vec<String>, csv::Error>>)
    ensures
        reader_content(*final(reader)).header == reader_content(*old(reader)).header,
        match next {
            None => {
                &&& reader_content(*old(reader)).records.len() == 0
                &&& reader_content(*final(reader)).records.len() == 0
            },
            Some(outcome) => {
                &&& reader_content(*old(reader)).records.len() > 0
                &&& reader_content(*final(reader)).records == reader_content(
                    *old(reader),
                ).records.skip(1)
                &&& match outcome {
                    Ok(fields) => reader_content(*old(reader)).records[0] == Some(
                        fields.deep_view(),
                    ),
                    Err(_) => reader_content(*old(reader)).records[0] is None,
                }
            },
        },
{
    reader.records().next().map(|read| read.map(|record| record.iter().map(String::from).collect()))
}

/// What data row number `row` is read as.
pub open spec fn row_at(columns: Columns, records: Seq<Option<Seq<Seq<char>>>>, row: int) -> Result<
    InputRowView,
    ParseFailure,
> {
    match records[row] {
        None => Err(ParseFailure::UnreadableRow(row)),
        Some(fields) => columns.row_of(fields, row),
    }
}

/// Row number `row` is the first that cannot be read.
pub open spec fn fails_first_at(
    columns: Columns,
    records: Seq<Option<Seq<Seq<char>>>>,
    row: int,
) -> bool {
    &&& 0 <= row < records.len()
    &&& row_at(columns, records, row) is Err
    &&& forall|earlier: int| 0 <= earlier < row ==> row_at(columns, records, earlier) is Ok
}

/// The rows of a table, in file order; or, if a row cannot be read, the
/// failure of the first such row.
pub open spec fn rows_of(columns: Columns, records: Seq<Option<Seq<Seq<char>>>>) -> Result<
    Seq<InputRowView>,
    ParseFailure,
> {
    if exists|row: int| fails_first_at(columns, records, row) {
        let row = choose|row: int| fails_first_at(columns, records, row);
        Err(row_at(columns, records, row)->Err_0)
    } else {
        Ok(Seq::new(records.len(), |row: int| row_at(columns, records, row)->Ok_0))
    }
}

/// What an input is read as: its rows, or the first thing that is wrong with
/// it. The header is judged before any data row, and a header that lacks a
/// required column is refused whether or not a data row follows.
pub open spec fn parsed(table: Table) -> Result<Seq<InputRowView>, ParseFailure> {
    match table.header {
        None => Err(ParseFailure::UnreadableHeader),
        Some(header) => match first_missing(header) {
            Some(column) => Err(ParseFailure::MissingColumn(column)),
            None => rows_of(columns_of(header), table.records),
        },
    }
}

/// The columns of the header row that the reader gave. A header row that the
/// reader could not give is refused with the reader's description; one that
/// it gave is looked up as [`Columns::locate`] says.
pub fn columns_from(header: Result<Vec<String>, csv::Error>) -> (columns: Result<
    Columns,
    ParseError,
>)
    ensures
        match header {
            Ok(names) => match columns {
                Ok(columns) => first_missing(names.deep_view()) is None && columns == columns_of(
                    names.deep_view(),
                ),
                Err(error) => first_missing(names.deep_view()) matches Some(column) && error
                    == (ParseError::MissingColumn { column }),
            },
            Err(cause) => columns matches Err(ParseError::UnreadableHeader { detail })
                && to_string_from_display_ensures::<csv::Error>(&cause, detail),
        },
{
    match header {
        Ok(names) => Columns::locate(&names),
        Err(cause) => Err(ParseError::UnreadableHeader { detail: cause.to_string() }),
    }
}

/// The row that the reader's record number `row` is read as. A record that
/// the reader could not give is refused with the reader's description; one
/// that it gave is read as [`Columns::read_row`] says.
pub fn row_from(columns: &Columns, record: Result<Vec<String>, csv::Error>, row: usize) -> (read:
    Result<InputRow, ParseError>)
    ensures
        match record {
            Ok(fields) => match read {
                Ok(input_row) => columns.row_of(fields.deep_view(), row as int) == Ok::<
                    InputRowView,
                    ParseFailure,
                >(input_row@),
                Err(error) => columns.row_of(fields.deep_view(), row as int) == Err::<
                    InputRowView,
                    ParseFailure,
                >(error@),
            },
            Err(cause) => read matches Err(ParseError::UnreadableRow { row: at, detail }) && at
                == row && to_string_from_display_ensures::<csv::Error>(&cause, detail),
        },
{
    match record {
        Ok(fields) => columns.read_row(&fields, row),
        Err(cause) => Err(ParseError::UnreadableRow { row, detail: cause.to_string() }),
    }
}

/// Reads a whole input table into rows, in file order.
///
/// The input is comma-separated text whose first record is the header row.
/// Columns are found by name, so their order in the file does not matter,
/// and columns with other names are passed over. Reading stops at the first
/// thing that is wrong, and then no row is returned.
pub fn parse_rows(input: &[u8]) -> (rows: Result<Vec<InputRow>, ParseError>)
    ensures
        csv_content(input@).header matches Some(header) && (exists|column: Column|
            #[trigger] place_of(header, column) is None) ==> rows matches Err(
            ParseError::MissingColumn { .. },
        ),
        match rows {
            Ok(rows) => parsed(csv_content(input@)) == Ok::<Seq<InputRowView>, ParseFailure>(
                rows.deep_view(),
            ),
            Err(error) => parsed(csv_content(input@)) == Err::<Seq<InputRowView>, ParseFailure>(
                error@,
            ),
        },
{
    proof {
        if csv_content(input@).header is Some {
            lemma_first_missing(csv_content(input@).header->0);
        }
    }
    let mut reader = open_reader(input);
    let header = read_header(&mut reader);
    let ghost names = csv_content(input@).header;
    let ghost records = csv_content(input@).records;
    let columns = match columns_from(header) {
        Ok(columns) => columns,
        Err(error) => {
            return Err(error);
        },
    };
    let mut rows: Vec<InputRow> = Vec::new();
    loop
        invariant
            csv_content(input@).header == names,
            csv_content(input@).records == records,
            names is Some,
            first_missing(names->0) is None,
            columns == columns_of(names->0),
            rows.len() <= records.len(),
            reader_content(reader).records == records.skip(rows.len() as int),
            forall|row: int|
                0 <= row < rows.len() ==> #[trigger] row_at(columns, records, row) == Ok::<
                    InputRowView,
                    ParseFailure,
                >(rows[row]@),
        decreases records.len() - rows.len(),
    {
        let row = rows.len();
        match next_record(&mut reader) {
            None => {
                assert(rows.deep_view() =~= Seq::new(
                    records.len(),
                    |row: int| row_at(columns, records, row)->Ok_0,
                ));
                return Ok(rows);
            },
            Some(record) => match row_from(&columns, record, row) {
                Ok(input_row) => {
                    rows.push(input_row);
                },
                Err(error) => {
                    assert(fails_first_at(columns, records, row as int));
                    return Err(error);
                },
            },
        }
    }
}

} // verus!
