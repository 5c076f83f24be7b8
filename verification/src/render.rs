//! Rendering a bucket: the document of its subjects as pretty-printed JSON,
//! under the name of the file that the document belongs in.

use vstd::prelude::*;
use vstd::string::*;
use crate::error::SerializeError;
use crate::partition::{YearBucket, YearBucketView};
use crate::record::{Subject, SubjectView};

verus! {

/// One output artifact: the name of a file, and the text that belongs in it.
#[derive(Debug, Clone, PartialEq, Eq)]
pub struct OutputFile {
    pub name: String,
    pub contents: String,
}

/// The mathematical value of an [`OutputFile`].
pub struct OutputFileView {
    pub name: Seq<char>,
    pub contents: Seq<char>,
}

impl View for OutputFile {
    type V = OutputFileView;

    open spec fn view(&self) -> OutputFileView {
        OutputFileView { name: self.name@, contents: self.contents@ }
    }
}

/// The members of the object that a subject is rendered as: six keys, each
/// with the text of its field, in this order.
pub open spec fn members(subject: SubjectView) -> Seq<(Seq<char>, Seq<char>)> {
    seq![
        ("id"@, subject.id),
        ("name"@, subject.name),
        ("credits"@, subject.credits),
        ("type"@, subject.type_),
        ("category"@, subject.category),
        ("grade"@, subject.grade),
    ]
}

/// The document of a bucket: one object for every subject, in bucket order.
pub open spec fn document(subjects: Seq<SubjectView>) -> Seq<Seq<(Seq<char>, Seq<char>)>> {
    subjects.map_values(|subject: SubjectView| members(subject))
}

/// The name of the file of a year: the year as it stands in the input, and
/// the extension. Nothing in the year is escaped or replaced.
pub open spec fn file_name(year: Seq<char>) -> Seq<char> {
    year + ".json"@
}

/// Files of different years have different names.
pub proof fn lemma_file_names_differ(first: Seq<char>, second: Seq<char>)
    ensures
        file_name(first) == file_name(second) ==> first == second,
{
    if file_name(first) == file_name(second) {
        let extension = ".json"@;
        assert(first.len() == second.len()) by {
            assert(file_name(first).len() == first.len() + extension.len());
            assert(file_name(second).len() == second.len() + extension.len());
        }
        assert forall|i: int| 0 <= i < first.len() implies first[i] == second[i] by {
            assert(file_name(first)[i] == first[i]);
            assert(file_name(second)[i] == second[i]);
        }
        assert(first =~= second);
    }
}

/// The error of the `serde_json` crate.
#[verifier::external_type_specification]
#[verifier::external_body]
pub struct ExJsonError(serde_json::Error);

/// The text that `serde_json::to_string_pretty` gives for an array of
/// objects, every object given as its members in order, every member a key
/// and a string; `None` if it reports an error.
pub uninterp spec fn json_pretty(document: Seq<Seq<(Seq<char>, Seq<char>)>>) -> Option<Seq<char>>;

/// `serde_json::to_string_pretty` on the array of the given objects. Every
/// object becomes a `serde_json::Map` that is filled with the members in
/// their order, every text a `serde_json::Value::String`. The crate is built
/// with `preserve_order`, so that the members come out in the order in which
/// they went in.
#[verifier::external_body]
fn to_pretty_json(objects: &Vec<Vec<(String, String)>>) -> (text: Result<String, serde_json::Error>)
    ensures
        match text {
            Ok(text) => json_pretty(objects.deep_view()) == Some(text@),
            Err(_) => json_pretty(objects.deep_view()) is None,
        },
{
    let array = objects.iter().map(
        |members|
            serde_json::Value::Object(
                members.iter().map(
                    |(key, text)| (key.clone(), serde_json::Value::String(text.clone())),
                ).collect(),
            ),
    ).collect();
    serde_json::to_string_pretty(&serde_json::Value::Array(array))
}

/// What a bucket is rendered as, if the serializer accepts it.
pub open spec fn rendered(bucket: YearBucketView) -> Option<OutputFileView> {
    match json_pretty(document(bucket.subjects)) {
        Some(text) => Some(OutputFileView { name: file_name(bucket.year), contents: text }),
        None => None,
    }
}

/// `outcome` is what [`render`] returns for a bucket.
pub open spec fn renders(
    bucket: YearBucketView,
    outcome: Result<OutputFile, SerializeError>,
) -> bool {
    match outcome {
        Ok(file) => rendered(bucket) == Some(file@),
        Err(_) => rendered(bucket) is None,
    }
}

/// A bucket that is rendered again gives the same file: the same name and
/// the same text, or no file either time.
pub proof fn lemma_rendered_again_is_identical(
    bucket: YearBucketView,
    first: Result<OutputFile, SerializeError>,
    second: Result<OutputFile, SerializeError>,
)
    requires
        renders(bucket, first),
        renders(bucket, second),
    ensures
        match (first, second) {
            (Ok(one), Ok(other)) => one@ == other@,
            (Err(_), Err(_)) => true,
            _ => false,
        },
{
}

impl Subject {
    /// The members of the object that the subject is rendered as.
    pub fn members(&self) -> (pairs: Vec<(String, String)>)
        ensures
            pairs.deep_view() == members(self@),
    {
        let mut pairs: Vec<(String, String)> = Vec::new();
        pairs.push((String::from_str("id"), self.id.clone()));
        pairs.push((String::from_str("name"), self.name.clone()));
        pairs.push((String::from_str("credits"), self.credits.clone()));
        pairs.push((String::from_str("type"), self.type_.clone()));
        pairs.push((String::from_str("category"), self.category.clone()));
        pairs.push((String::from_str("grade"), self.grade.clone()));
        pairs
    }
}

/// The objects of the subjects of a bucket.
fn objects_of(subjects: &Vec<Subject>) -> (objects: Vec<Vec<(String, String)>>)
    ensures
        objects.deep_view() == document(subjects.deep_view()),
{
    let mut objects: Vec<Vec<(String, String)>> = Vec::new();
    let mut at: usize = 0;
    while at < subjects.len()
        invariant
            at <= subjects.len(),
            objects.len() == at,
            forall|i: int|
                0 <= i < at ==> (#[trigger] objects[i]).deep_view() == members(subjects[i]@),
        decreases subjects.len() - at,
    {
        objects.push(subjects[at].members());
        at += 1;
    }
    objects
}

/// Puts the text that the serializer gave for the subjects of a year under
/// the name of the file of that year. An error of the serializer becomes a
/// [`SerializeError`] with its description.
pub fn output_file(year: &String, text: Result<String, serde_json::Error>) -> (file: Result<
    OutputFile,
    SerializeError,
>)
    ensures
        match text {
            Ok(text) => file matches Ok(file) && file@ == (OutputFileView {
                name: file_name(year@),
                contents: text@,
            }),
            Err(error) => file matches Err(failure) && to_string_from_display_ensures::<
                serde_json::Error,
            >(&error, failure.detail),
        },
{
    match text {
        Ok(contents) => Ok(OutputFile { name: year.clone().concat(".json"), contents }),
        Err(error) => Err(SerializeError { detail: error.to_string() }),
    }
}

/// Renders a bucket: a pretty-printed JSON array with one object for every
/// subject, in bucket order, each with the keys `id`, `name`, `credits`,
/// `type`, `category` and `grade` in this order and the subject's texts as
/// their values. The file is named after the year, `<year>.json`.
pub fn render(bucket: &YearBucket) -> (file: Result<OutputFile, SerializeError>)
    ensures
        renders(bucket@, file),
{
    let objects = objects_of(&bucket.subjects);
    output_file(&bucket.year, to_pretty_json(&objects))
}

} // verus!
