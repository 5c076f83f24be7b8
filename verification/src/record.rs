//! The two record shapes: a row as it is read, and the subject that is
//! emitted for it.

use vstd::prelude::*;

verus! {

/// One data row of the input, addressed by column name. Every field is the
/// text of the cell as it stands in the file.
#[derive(Debug, Clone, PartialEq, Eq)]
pub struct InputRow {
    pub year: String,
    pub subject_id: String,
    pub subject_name: String,
    pub subject_type: String,
    pub subject_category: String,
    pub credits: String,
    pub grade: String,
}

/// The mathematical value of an [`InputRow`].
pub struct InputRowView {
    pub year: Seq<char>,
    pub subject_id: Seq<char>,
    pub subject_name: Seq<char>,
    pub subject_type: Seq<char>,
    pub subject_category: Seq<char>,
    pub credits: Seq<char>,
    pub grade: Seq<char>,
}

/// One emitted record: a row without its year. The year is the key under
/// which the subject is filed, not a part of it.
#[derive(Debug, Clone, PartialEq, Eq)]
pub struct Subject {
    pub id: String,
    pub name: String,
    pub credits: String,
    pub type_: String,
    pub category: String,
    pub grade: String,
}

/// The mathematical value of a [`Subject`].
pub struct SubjectView {
    pub id: Seq<char>,
    pub name: Seq<char>,
    pub credits: Seq<char>,
    pub type_: Seq<char>,
    pub category: Seq<char>,
    pub grade: Seq<char>,
}

impl InputRowView {
    /// The subject that a row is emitted as: six of its seven fields, each
    /// unchanged.
    pub open spec fn subject(self) -> SubjectView {
        SubjectView {
            id: self.subject_id,
            name: self.subject_name,
            credits: self.credits,
            type_: self.subject_type,
            category: self.subject_category,
            grade: self.grade,
        }
    }
}

impl View for InputRow {
    type V = InputRowView;

    open spec fn view(&self) -> InputRowView {
        InputRowView {
            year: self.year@,
            subject_id: self.subject_id@,
            subject_name: self.subject_name@,
            subject_type: self.subject_type@,
            subject_category: self.subject_category@,
            credits: self.credits@,
            grade: self.grade@,
        }
    }
}

impl DeepView for InputRow {
    type V = InputRowView;

    open spec fn deep_view(&self) -> InputRowView {
        self@
    }
}

impl View for Subject {
    type V = SubjectView;

    open spec fn view(&self) -> SubjectView {
        SubjectView {
            id: self.id@,
            name: self.name@,
            credits: self.credits@,
            type_: self.type_@,
            category: self.category@,
            grade: self.grade@,
        }
    }
}

impl DeepView for Subject {
    type V = SubjectView;

    open spec fn deep_view(&self) -> SubjectView {
        self@
    }
}

impl InputRow {
    /// Takes the row apart into the year it is filed under and the subject
    /// that is emitted for it. No field is trimmed, parsed or otherwise
    /// changed on the way.
    pub fn into_keyed_subject(self) -> (keyed: (String, Subject))
        ensures
            keyed.0@ == self@.year,
            keyed.1@ == self@.subject(),
            keyed.1@.id == self@.subject_id,
            keyed.1@.name == self@.subject_name,
            keyed.1@.credits == self@.credits,
            keyed.1@.type_ == self@.subject_type,
            keyed.1@.category == self@.subject_category,
            keyed.1@.grade == self@.grade,
    {
        let subject = Subject {
            id: self.subject_id,
            name: self.subject_name,
            credits: self.credits,
            type_: self.subject_type,
            category: self.subject_category,
            grade: self.grade,
        };
        (self.year, subject)
    }
}

} // verus!
