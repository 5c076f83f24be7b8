//! What can go wrong while the input is read and while a bucket is rendered.

use vstd::prelude::*;
use vstd::string::*;
use crate::schema::Column;

verus! {

/// Why an input could not be turned into rows. Rows are counted from zero,
/// the first row after the header being row 0.
#[derive(Debug, Clone, PartialEq, Eq)]
pub enum ParseError {
    /// The header row could not be read as text.
    UnreadableHeader { detail: String },
    /// The header row lacks a required column.
    MissingColumn { column: Column },
    /// A data row is malformed: it is not valid text, or its number of
    /// fields differs from that of the header row.
    UnreadableRow { row: usize, detail: String },
    /// A data row cannot be mapped by name, because the header row holds
    /// the name of a required column more than once.
    RepeatedColumn { row: usize, column: Column },
    /// A data row has no field under a required column.
    ShortRow { row: usize },
}

/// A [`ParseError`] without the free text that the reader attached to it.
pub enum ParseFailure {
    UnreadableHeader,
    MissingColumn(Column),
    UnreadableRow(int),
    RepeatedColumn(int, Column),
    ShortRow(int),
}

impl View for ParseError {
    type V = ParseFailure;

    open spec fn view(&self) -> ParseFailure {
        match *self {
            ParseError::UnreadableHeader { .. } => ParseFailure::UnreadableHeader,
            ParseError::MissingColumn { column } => ParseFailure::MissingColumn(column),
            ParseError::UnreadableRow { row, .. } => ParseFailure::UnreadableRow(row as int),
            ParseError::RepeatedColumn { row, column } => ParseFailure::RepeatedColumn(
                row as int,
                column,
            ),
            ParseError::ShortRow { row } => ParseFailure::ShortRow(row as int),
        }
    }
}

impl ParseError {
    /// The text of [`ParseError::message`].
    pub open spec fn message_text(&self) -> Seq<char> {
        match *self {
            ParseError::UnreadableHeader { detail } => detail@,
            ParseError::MissingColumn { column } => "missing column: "@ + column.header(),
            ParseError::UnreadableRow { detail, .. } => detail@,
            ParseError::RepeatedColumn { column, .. } => "repeated column: "@ + column.header(),
            ParseError::ShortRow { .. } => "row has no field under a required column"@,
        }
    }

    /// A description of the error for the user.
    pub fn message(&self) -> (text: String)
        ensures
            text@ == self.message_text(),
    {
        match self {
            ParseError::UnreadableHeader { detail } => detail.clone(),
            ParseError::MissingColumn { column } => {
                String::from_str("missing column: ").concat(column.header_name())
            },
            ParseError::UnreadableRow { detail, .. } => detail.clone(),
            ParseError::RepeatedColumn { column, .. } => {
                String::from_str("repeated column: ").concat(column.header_name())
            },
            ParseError::ShortRow { .. } => String::from_str(
                "row has no field under a required column",
            ),
        }
    }
}

/// A bucket could not be rendered as a document.
#[derive(Debug, Clone, PartialEq, Eq)]
pub struct SerializeError {
    /// What the serializer reported.
    pub detail: String,
}

impl SerializeError {
    /// A description of the error for the user.
    pub fn message(&self) -> (text: String)
        ensures
            text@ == self.detail@,
    {
        self.detail.clone()
    }
}

} // verus!
