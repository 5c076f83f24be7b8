//! Grouping rows by year. A bucket holds the subjects of one year in the
//! order of their rows; the buckets stand in the order in which their years
//! first occur in the input.

use vstd::prelude::*;
use crate::record::{InputRow, InputRowView, Subject, SubjectView};

verus! {

/// The subjects of one year, in input order.
#[derive(Debug, Clone, PartialEq, Eq)]
pub struct YearBucket {
    pub year: String,
    pub subjects: Vec<Subject>,
}

/// The mathematical value of a [`YearBucket`].
pub struct YearBucketView {
    pub year: Seq<char>,
    pub subjects: Seq<SubjectView>,
}

impl View for YearBucket {
    type V = YearBucketView;

    open spec fn view(&self) -> YearBucketView {
        YearBucketView { year: self.year@, subjects: self.subjects.deep_view() }
    }
}

impl DeepView for YearBucket {
    type V = YearBucketView;

    open spec fn deep_view(&self) -> YearBucketView {
        self@
    }
}

/// The year of every row, in input order.
pub open spec fn years_of(rows: Seq<InputRowView>) -> Seq<Seq<char>> {
    rows.map_values(|row: InputRowView| row.year)
}

/// The years of the rows, each once, in the order of their first rows.
pub open spec fn distinct_years(rows: Seq<InputRowView>) -> Seq<Seq<char>> {
    years_of(rows).remove_duplicates(Seq::empty())
}

/// The subjects of the rows of one year, in input order.
pub open spec fn subjects_of_year(rows: Seq<InputRowView>, year: Seq<char>) -> Seq<SubjectView> {
    rows.filter(|row: InputRowView| row.year == year).map_values(
        |row: InputRowView| row.subject(),
    )
}

/// The buckets that a sequence of rows falls into.
pub open spec fn partition(rows: Seq<InputRowView>) -> Seq<YearBucketView> {
    distinct_years(rows).map_values(
        |year: Seq<char>| YearBucketView { year, subjects: subjects_of_year(rows, year) },
    )
}

/// The year of every bucket, in bucket order.
pub open spec fn bucket_years(buckets: Seq<YearBucketView>) -> Seq<Seq<char>> {
    buckets.map_values(|bucket: YearBucketView| bucket.year)
}

/// The buckets after one more row has been filed: its subject goes to the
/// end of the bucket of its year, or into a new last bucket if no bucket has
/// that year yet.
pub open spec fn filed(buckets: Seq<YearBucketView>, row: InputRowView) -> Seq<YearBucketView> {
    match bucket_years(buckets).index_of_first(row.year) {
        Some(at) => buckets.update(
            at,
            YearBucketView { year: row.year, subjects: buckets[at].subjects.push(row.subject()) },
        ),
        None => buckets.push(YearBucketView { year: row.year, subjects: seq![row.subject()] }),
    }
}

/// The distinct years of some rows hold every year of the rows, and none
/// twice.
pub proof fn lemma_distinct_years(rows: Seq<InputRowView>)
    ensures
        distinct_years(rows).no_duplicates(),
        forall|year: Seq<char>|
            #[trigger] distinct_years(rows).contains(year) <==> years_of(rows).contains(year),
        distinct_years(rows).len() <= rows.len(),
    decreases rows.len(),
{
    let years = years_of(rows);
    years.lemma_remove_duplicates_properties(Seq::empty());
    if rows.len() > 0 {
        let before = rows.drop_last();
        let last = rows.last();
        lemma_distinct_years(before);
        lemma_distinct_years_push(before, last);
        assert(before.push(last) =~= rows);
    }
}

/// One more row adds its year to the distinct years if it is new, and
/// leaves them as they are if it is not.
pub proof fn lemma_distinct_years_push(rows: Seq<InputRowView>, row: InputRowView)
    ensures
        distinct_years(rows.push(row)) == if distinct_years(rows).contains(row.year) {
            distinct_years(rows)
        } else {
            distinct_years(rows).push(row.year)
        },
        distinct_years(rows).contains(row.year) <==> years_of(rows).contains(row.year),
{
    let years = years_of(rows);
    let none = Seq::<Seq<char>>::empty();
    assert(years_of(rows.push(row)) =~= years + seq![row.year]);
    years.lemma_remove_duplicates_properties(none);
    years.lemma_remove_duplicates_append(row.year, none);
}

/// One more row adds its subject to the subjects of its own year, and to
/// those of no other.
pub proof fn lemma_subjects_of_year_push(
    rows: Seq<InputRowView>,
    row: InputRowView,
    year: Seq<char>,
)
    ensures
        subjects_of_year(rows.push(row), year) == if row.year == year {
            subjects_of_year(rows, year).push(row.subject())
        } else {
            subjects_of_year(rows, year)
        },
{
    rows.lemma_filter_push(row, |row: InputRowView| row.year == year);
}

/// A year that no row has, has no subjects.
pub proof fn lemma_no_rows_no_subjects(rows: Seq<InputRowView>, year: Seq<char>)
    requires
        !years_of(rows).contains(year),
    ensures
        subjects_of_year(rows, year) == Seq::<SubjectView>::empty(),
{
    let in_year = |row: InputRowView| row.year == year;
    assert forall|i: int| 0 <= i < rows.len() implies !in_year(#[trigger] rows[i]) by {
        assert(years_of(rows)[i] == rows[i].year);
    }
    rows.lemma_all_neg_filter_empty(in_year);
}

/// Filing one more row is what the partition of the longer input asks for.
pub proof fn lemma_partition_push(rows: Seq<InputRowView>, row: InputRowView)
    ensures
        partition(rows.push(row)) == filed(partition(rows), row),
{
    let years = distinct_years(rows);
    let more = rows.push(row);
    lemma_distinct_years(rows);
    lemma_distinct_years_push(rows, row);
    assert(bucket_years(partition(rows)) =~= years);
    years.index_of_first_ensures(row.year);
    assert forall|year: Seq<char>| true implies #[trigger] subjects_of_year(more, year) == if year
        == row.year {
        subjects_of_year(rows, year).push(row.subject())
    } else {
        subjects_of_year(rows, year)
    } by {
        lemma_subjects_of_year_push(rows, row, year);
    }
    if years.index_of_first(row.year) is None {
        lemma_no_rows_no_subjects(rows, row.year);
    }
}

/// Every row is emitted: its subject stands in the bucket of its year, with
/// the six fields that the row has for it.
pub proof fn lemma_every_row_is_emitted(rows: Seq<InputRowView>, row: int)
    requires
        0 <= row < rows.len(),
    ensures
        exists|at: int, place: int|
            0 <= at < partition(rows).len() && 0 <= place < partition(rows)[at].subjects.len()
                && partition(rows)[at].year == rows[row].year
                && #[trigger] partition(rows)[at].subjects[place] == rows[row].subject(),
{
    let year = rows[row].year;
    let in_year = |row: InputRowView| row.year == year;
    lemma_distinct_years(rows);
    assert(years_of(rows)[row] == year);
    assert(distinct_years(rows).contains(year));
    let years = distinct_years(rows);
    let at = choose|at: int| 0 <= at < years.len() && years[at] == year;
    rows.lemma_filter_contains(in_year, row);
    let kept = rows.filter(in_year);
    let place = choose|place: int| 0 <= place < kept.len() && kept[place] == rows[row];
    assert(partition(rows)[at].subjects[place] == rows[row].subject());
}

/// The buckets of an input, keyed by year. No two buckets have the same
/// year, a bucket is never empty, and a bucket keeps the place at which its
/// year first came in.
#[derive(Debug, Clone, PartialEq, Eq)]
pub struct YearBuckets {
    buckets: Vec<YearBucket>,
}

impl View for YearBuckets {
    type V = Seq<YearBucketView>;

    closed spec fn view(&self) -> Seq<YearBucketView> {
        self.buckets.deep_view()
    }
}

/// No two of the buckets have the same year, and none is empty.
pub open spec fn well_keyed(buckets: Seq<YearBucketView>) -> bool {
    &&& bucket_years(buckets).no_duplicates()
    &&& forall|at: int| 0 <= at < buckets.len() ==> (#[trigger] buckets[at]).subjects.len() > 0
}

impl YearBuckets {
    /// No buckets.
    pub fn new() -> (buckets: YearBuckets)
        ensures
            buckets@ == Seq::<YearBucketView>::empty(),
            well_keyed(buckets@),
    {
        let buckets = YearBuckets { buckets: Vec::new() };
        buckets
    }

    /// The number of buckets, which is the number of distinct years.
    pub fn len(&self) -> (count: usize)
        ensures
            count == self@.len(),
    {
        self.buckets.len()
    }

    /// The bucket at a place.
    pub fn get(&self, at: usize) -> (bucket: Option<&YearBucket>)
        ensures
            match bucket {
                Some(bucket) => at < self@.len() && bucket@ == self@[at as int],
                None => at >= self@.len(),
            },
    {
        if at < self.buckets.len() {
            Some(&self.buckets[at])
        } else {
            None
        }
    }

    /// The place of the bucket of a year, if there is one.
    pub fn position(&self, year: &String) -> (at: Option<usize>)
        ensures
            match at {
                Some(at) => bucket_years(self@).index_of_first(year@) == Some(at as int),
                None => bucket_years(self@).index_of_first(year@) is None,
            },
    {
        let ghost years = bucket_years(self@);
        let mut at: usize = 0;
        while at < self.buckets.len()
            invariant
                at <= self.buckets.len(),
                years == bucket_years(self@),
                years.len() == self.buckets.len(),
                forall|before: int| 0 <= before < at ==> years[before] != year@,
            decreases self.buckets.len() - at,
        {
            assert(years[at as int] == self.buckets[at as int].year@);
            if self.buckets[at].year == *year {
                proof {
                    years.index_of_first_ensures(year@);
                }
                return Some(at);
            }
            at += 1;
        }
        proof {
            years.index_of_first_ensures(year@);
        }
        None
    }

    /// Files one row: its subject goes to the end of the bucket of its year.
    /// If no bucket has that year yet, a new one is added behind the others.
    pub fn insert(&mut self, row: InputRow)
        ensures
            final(self)@ == filed(old(self)@, row@),
            well_keyed(old(self)@) ==> well_keyed(final(self)@),
    {
        proof {
            bucket_years(self@).index_of_first_ensures(row@.year);
        }
        let found = self.position(&row.year);
        let (year, subject) = row.into_keyed_subject();
        match found {
            Some(at) => {
                self.buckets[at].subjects.push(subject);
                assert(self.buckets[at as int].subjects.deep_view() =~= old(
                    self,
                )@[at as int].subjects.push(row@.subject()));
            },
            None => {
                let mut subjects: Vec<Subject> = Vec::new();
                subjects.push(subject);
                assert(subjects.deep_view() =~= seq![row@.subject()]);
                self.buckets.push(YearBucket { year, subjects });
            },
        }
        assert(bucket_years(self@) =~= if found is Some {
            bucket_years(old(self)@)
        } else {
            bucket_years(old(self)@).push(row@.year)
        });
    }
}

/// Groups rows by year.
///
/// There is one bucket for every year that occurs in the rows and no other
/// bucket; the bucket of a year holds the subjects of exactly the rows of
/// that year, in the order of the rows; and the buckets stand in the order
/// in which their years first occur.
pub fn group_by_year(rows: Vec<InputRow>) -> (buckets: YearBuckets)
    ensures
        buckets@ == partition(rows.deep_view()),
        well_keyed(buckets@),
        forall|year: Seq<char>|
            #[trigger] bucket_years(buckets@).contains(year) <==> years_of(
                rows.deep_view(),
            ).contains(year),
        forall|at: int|
            0 <= at < buckets@.len() ==> (#[trigger] buckets@[at]).subjects == subjects_of_year(
                rows.deep_view(),
                buckets@[at].year,
            ),
{
    let ghost all = rows.deep_view();
    let mut buckets = YearBuckets::new();
    assert(partition(all.take(0)) =~= Seq::<YearBucketView>::empty()) by {
        lemma_distinct_years(all.take(0));
    }
    for row in it: rows
        invariant
            all.len() == it.seq().len(),
            forall|i: int| 0 <= i < all.len() ==> all[i] == #[trigger] it.seq()[i]@,
            buckets@ == partition(all.take(it.index() as int)),
            well_keyed(buckets@),
    {
        proof {
            let done = all.take(it.index() as int);
            assert(done.push(row@) =~= all.take(it.index() + 1));
            lemma_partition_push(done, row@);
        }
        buckets.insert(row);
    }
    proof {
        assert(all.take(all.len() as int) =~= all);
        lemma_distinct_years(all);
        assert(bucket_years(partition(all)) =~= distinct_years(all));
    }
    buckets
}

} // verus!
