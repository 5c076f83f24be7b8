//! The seven columns of the input table, and where a header row puts them.

use vstd::prelude::*;
use vstd::string::*;
use crate::error::{ParseError, ParseFailure};
use crate::record::{InputRow, InputRowView};

verus! {

/// A required column of the input table, in the order of the schema.
#[derive(Debug, Clone, Copy, PartialEq, Eq, Structural)]
pub enum Column {
    Year,
    SubjectId,
    SubjectName,
    SubjectType,
    SubjectCategory,
    Credits,
    Grade,
}

impl Column {
    /// The name under which the column stands in a header row. The match is
    /// exact: case, width and the space that ends the subject name all count.
    pub open spec fn header(self) -> Seq<char> {
        match self {
            Column::Year => "開講年度"@,
            Column::SubjectId => "科目番号"@,
            Column::SubjectName => "科目名 "@,
            Column::SubjectType => "開講区分"@,
            Column::SubjectCategory => "科目区分"@,
            Column::Credits => "単位数"@,
            Column::Grade => "総合評価"@,
        }
    }

    /// The name under which the column stands in a header row.
    pub fn header_name(self) -> (name: &'static str)
        ensures
            name@ == self.header(),
    {
        match self {
            Column::Year => "開講年度",
            Column::SubjectId => "科目番号",
            Column::SubjectName => "科目名 ",
            Column::SubjectType => "開講区分",
            Column::SubjectCategory => "科目区分",
            Column::Credits => "単位数",
            Column::Grade => "総合評価",
        }
    }
}

/// The first column, in schema order, of which `holds` is true.
pub open spec fn first_column(holds: spec_fn(Column) -> bool) -> Option<Column> {
    if holds(Column::Year) {
        Some(Column::Year)
    } else if holds(Column::SubjectId) {
        Some(Column::SubjectId)
    } else if holds(Column::SubjectName) {
        Some(Column::SubjectName)
    } else if holds(Column::SubjectType) {
        Some(Column::SubjectType)
    } else if holds(Column::SubjectCategory) {
        Some(Column::SubjectCategory)
    } else if holds(Column::Credits) {
        Some(Column::Credits)
    } else if holds(Column::Grade) {
        Some(Column::Grade)
    } else {
        None
    }
}

/// The index of the first header cell that names `column`, if any does.
pub open spec fn place_of(header: Seq<Seq<char>>, column: Column) -> Option<int> {
    header.index_of_first(column.header())
}

/// Two different header cells name `column`.
pub open spec fn repeats(header: Seq<Seq<char>>, column: Column) -> bool {
    exists|i: int, j: int|
        0 <= i < j < header.len() && #[trigger] header[i] == column.header()
            && #[trigger] header[j] == column.header()
}

/// The first required column that the header row lacks.
pub open spec fn first_missing(header: Seq<Seq<char>>) -> Option<Column> {
    first_column(|column: Column| place_of(header, column) is None)
}

/// A header row lacks a required column exactly if it has a first missing
/// column.
pub proof fn lemma_first_missing(header: Seq<Seq<char>>)
    ensures
        first_missing(header) is Some <==> exists|column: Column|
            #[trigger] place_of(header, column) is None,
        first_missing(header) matches Some(column) ==> place_of(header, column) is None,
{
    if exists|column: Column| #[trigger] place_of(header, column) is None {
        let column = choose|column: Column| #[trigger] place_of(header, column) is None;
        match column {
            Column::Year => {},
            Column::SubjectId => {},
            Column::SubjectName => {},
            Column::SubjectType => {},
            Column::SubjectCategory => {},
            Column::Credits => {},
            Column::Grade => {},
        }
    }
}

/// The first required column that the header row names more than once.
pub open spec fn first_repeated(header: Seq<Seq<char>>) -> Option<Column> {
    first_column(|column: Column| repeats(header, column))
}

/// Where a header row puts each required column: the index of the first
/// cell that names it. `repeated` is the first required column that the
/// header names more than once; rows under such a header are ambiguous.
#[derive(Debug, Clone, PartialEq, Eq)]
pub struct Columns {
    pub year: usize,
    pub subject_id: usize,
    pub subject_name: usize,
    pub subject_type: usize,
    pub subject_category: usize,
    pub credits: usize,
    pub grade: usize,
    pub repeated: Option<Column>,
}

/// The columns of a header row that lacks none of them: each stands at the
/// first cell that names it.
pub open spec fn columns_of(header: Seq<Seq<char>>) -> Columns {
    Columns {
        year: place_of(header, Column::Year).unwrap() as usize,
        subject_id: place_of(header, Column::SubjectId).unwrap() as usize,
        subject_name: place_of(header, Column::SubjectName).unwrap() as usize,
        subject_type: place_of(header, Column::SubjectType).unwrap() as usize,
        subject_category: place_of(header, Column::SubjectCategory).unwrap() as usize,
        credits: place_of(header, Column::Credits).unwrap() as usize,
        grade: place_of(header, Column::Grade).unwrap() as usize,
        repeated: first_repeated(header),
    }
}

/// Where one name stands in a header row.
enum Placement {
    Absent,
    Once(usize),
    Repeated(usize),
}

/// Finds the cells of `header` that name `column`.
fn place(header: &Vec<String>, column: Column) -> (placement: Placement)
    ensures
        match placement {
            Placement::Absent => place_of(header.deep_view(), column) is None && !repeats(
                header.deep_view(),
                column,
            ),
            Placement::Once(first) => place_of(header.deep_view(), column) == Some(first as int)
                && !repeats(header.deep_view(), column),
            Placement::Repeated(first) => place_of(header.deep_view(), column) == Some(
                first as int,
            ) && repeats(header.deep_view(), column),
        },
{
    let wanted = String::from_str(column.header_name());
    let ghost cells = header.deep_view();
    let mut first: Option<usize> = None;
    let mut again = false;
    let mut i: usize = 0;
    while i < header.len()
        invariant
            i <= header.len(),
            cells == header.deep_view(),
            cells.len() == header.len(),
            wanted@ == column.header(),
            match first {
                None => !again && forall|j: int| 0 <= j < i ==> cells[j] != column.header(),
                Some(f) => f < i && cells[f as int] == column.header() && forall|j: int|
                    0 <= j < f ==> cells[j] != column.header(),
            },
            again <==> exists|a: int, b: int|
                0 <= a < b < i && #[trigger] cells[a] == column.header() && #[trigger] cells[b]
                    == column.header(),
        decreases header.len() - i,
    {
        if header[i] == wanted {
            match first {
                None => {
                    first = Some(i);
                },
                Some(f) => {
                    again = true;
                    assert(cells[f as int] == column.header() && cells[i as int]
                        == column.header());
                },
            }
        }
        i += 1;
    }
    proof {
        cells.index_of_first_ensures(column.header());
    }
    match first {
        None => Placement::Absent,
        Some(f) => {
            if again {
                Placement::Repeated(f)
            } else {
                Placement::Once(f)
            }
        },
    }
}

/// Locates one required column, and records it in `repeated` if it is the
/// first that the header names twice.
fn locate_one(header: &Vec<String>, column: Column, repeated: &mut Option<Column>) -> (index:
    Option<usize>)
    ensures
        match index {
            Some(first) => place_of(header.deep_view(), column) == Some(first as int),
            None => place_of(header.deep_view(), column) is None,
        },
        *final(repeated) == if *old(repeated) is None && repeats(header.deep_view(), column) {
            Some(column)
        } else {
            *old(repeated)
        },
{
    match place(header, column) {
        Placement::Absent => None,
        Placement::Once(first) => Some(first),
        Placement::Repeated(first) => {
            if repeated.is_none() {
                *repeated = Some(column);
            }
            Some(first)
        },
    }
}

impl Columns {
    /// A row of `width` fields has a field under every required column.
    pub open spec fn fits(&self, width: nat) -> bool {
        &&& self.year < width
        &&& self.subject_id < width
        &&& self.subject_name < width
        &&& self.subject_type < width
        &&& self.subject_category < width
        &&& self.credits < width
        &&& self.grade < width
    }

    /// What the fields of data row number `row` are read as.
    pub open spec fn row_of(&self, fields: Seq<Seq<char>>, row: int) -> Result<
        InputRowView,
        ParseFailure,
    > {
        match self.repeated {
            Some(column) => Err(ParseFailure::RepeatedColumn(row, column)),
            None => if self.fits(fields.len()) {
                Ok(
                    InputRowView {
                        year: fields[self.year as int],
                        subject_id: fields[self.subject_id as int],
                        subject_name: fields[self.subject_name as int],
                        subject_type: fields[self.subject_type as int],
                        subject_category: fields[self.subject_category as int],
                        credits: fields[self.credits as int],
                        grade: fields[self.grade as int],
                    },
                )
            } else {
                Err(ParseFailure::ShortRow(row))
            },
        }
    }

    /// Looks the seven required columns up in a header row, by name. Cells
    /// that name no required column are passed over. The lookup fails exactly
    /// if a required column is missing, and then names the first such column
    /// in schema order.
    pub fn locate(header: &Vec<String>) -> (located: Result<Columns, ParseError>)
        ensures
            located is Err <==> exists|column: Column|
                #[trigger] place_of(header.deep_view(), column) is None,
            match located {
                Ok(columns) => first_missing(header.deep_view()) is None && columns == columns_of(
                    header.deep_view(),
                ),
                Err(error) => first_missing(header.deep_view()) matches Some(column) && error
                    == (ParseError::MissingColumn { column }),
            },
    {
        proof {
            lemma_first_missing(header.deep_view());
        }
        let mut repeated: Option<Column> = None;
        let year = match locate_one(header, Column::Year, &mut repeated) {
            Some(index) => index,
            None => return Err(ParseError::MissingColumn { column: Column::Year }),
        };
        let subject_id = match locate_one(header, Column::SubjectId, &mut repeated) {
            Some(index) => index,
            None => return Err(ParseError::MissingColumn { column: Column::SubjectId }),
        };
        let subject_name = match locate_one(header, Column::SubjectName, &mut repeated) {
            Some(index) => index,
            None => return Err(ParseError::MissingColumn { column: Column::SubjectName }),
        };
        let subject_type = match locate_one(header, Column::SubjectType, &mut repeated) {
            Some(index) => index,
            None => return Err(ParseError::MissingColumn { column: Column::SubjectType }),
        };
        let subject_category = match locate_one(header, Column::SubjectCategory, &mut repeated) {
            Some(index) => index,
            None => return Err(ParseError::MissingColumn { column: Column::SubjectCategory }),
        };
        let credits = match locate_one(header, Column::Credits, &mut repeated) {
            Some(index) => index,
            None => return Err(ParseError::MissingColumn { column: Column::Credits }),
        };
        let grade = match locate_one(header, Column::Grade, &mut repeated) {
            Some(index) => index,
            None => return Err(ParseError::MissingColumn { column: Column::Grade }),
        };
        Ok(
            Columns {
                year,
                subject_id,
                subject_name,
                subject_type,
                subject_category,
                credits,
                grade,
                repeated,
            },
        )
    }

    /// Reads the fields of data row number `row` as an [`InputRow`]. Every
    /// field of the row is the text of the cell under its column, unchanged.
    /// The row is refused if the header names a required column twice, or if
    /// the row has no cell under a required column.
    pub fn read_row(&self, fields: &Vec<String>, row: usize) -> (read: Result<
        InputRow,
        ParseError,
    >)
        ensures
            match read {
                Ok(input_row) => self.row_of(fields.deep_view(), row as int) == Ok::<
                    InputRowView,
                    ParseFailure,
                >(input_row@),
                Err(error) => self.row_of(fields.deep_view(), row as int) == Err::<
                    InputRowView,
                    ParseFailure,
                >(error@),
            },
    {
        if let Some(column) = self.repeated {
            return Err(ParseError::RepeatedColumn { row, column });
        }
        let width = fields.len();
        if !(self.year < width && self.subject_id < width && self.subject_name < width
            && self.subject_type < width && self.subject_category < width && self.credits < width
            && self.grade < width) {
            return Err(ParseError::ShortRow { row });
        }
        Ok(
            InputRow {
                year: fields[self.year].clone(),
                subject_id: fields[self.subject_id].clone(),
                subject_name: fields[self.subject_name].clone(),
                subject_type: fields[self.subject_type].clone(),
                subject_category: fields[self.subject_category].clone(),
                credits: fields[self.credits].clone(),
                grade: fields[self.grade].clone(),
            },
        )
    }
}

} // verus!
