//! The job list filter: free text, or `field:value` for one column; matching
//! ignores case.
use vstd::prelude::*;

use crate::job::{job_id_text, Job, JobModel};
use crate::job::job_views;
use crate::split::{split_once, split_once_chars};
use crate::text::{
    chars_eq_str, chars_of, contains_chars, contains_seq, lower_ascii_seq, lowercase, lowercase_of,
    string_of, to_ascii_lower, trim, trim_chars, trim_str,
};

verus! {

/// The column a `field:value` filter looks at.
#[derive(Clone, Copy, PartialEq, Eq, Structural, Debug)]
pub enum JobFilterField {
    Job,
    Id,
    Name,
    User,
    Partition,
    State,
    Time,
}

/// The field that a (trimmed, ASCII-lower-cased) name stands for.
pub open spec fn filter_field_named(value: Seq<char>) -> Option<JobFilterField> {
    let n = lower_ascii_seq(trim(value));
    if n == "job"@ {
        Some(JobFilterField::Job)
    } else if n == "id"@ {
        Some(JobFilterField::Id)
    } else if n == "name"@ {
        Some(JobFilterField::Name)
    } else if n == "user"@ {
        Some(JobFilterField::User)
    } else if n == "partition"@ || n == "part"@ {
        Some(JobFilterField::Partition)
    } else if n == "state"@ || n == "st"@ {
        Some(JobFilterField::State)
    } else if n == "time"@ {
        Some(JobFilterField::Time)
    } else {
        None
    }
}

fn lower_ascii_vec(s: &[char]) -> (r: Vec<char>)
    ensures
        r@ == lower_ascii_seq(s@),
{
    let mut r: Vec<char> = Vec::new();
    let mut i: usize = 0;
    while i < s.len()
        invariant
            i <= s.len(),
            r@ == lower_ascii_seq(s@.take(i as int)),
        decreases s.len() - i,
    {
        r.push(to_ascii_lower(s[i]));
        i = i + 1;
        assert(r@ =~= lower_ascii_seq(s@.take(i as int)));
    }
    assert(s@.take(s.len() as int) =~= s@);
    r
}

impl JobFilterField {
    /// The field a filter prefix names, if any.
    pub fn parse(value: &[char]) -> (r: Option<JobFilterField>)
        ensures
            r == filter_field_named(value@),
    {
        let t = trim_chars(value);
        let n = lower_ascii_vec(t.as_slice());
        let n = n.as_slice();
        if chars_eq_str(n, "job") {
            Some(JobFilterField::Job)
        } else if chars_eq_str(n, "id") {
            Some(JobFilterField::Id)
        } else if chars_eq_str(n, "name") {
            Some(JobFilterField::Name)
        } else if chars_eq_str(n, "user") {
            Some(JobFilterField::User)
        } else if chars_eq_str(n, "partition") || chars_eq_str(n, "part") {
            Some(JobFilterField::Partition)
        } else if chars_eq_str(n, "state") || chars_eq_str(n, "st") {
            Some(JobFilterField::State)
        } else if chars_eq_str(n, "time") {
            Some(JobFilterField::Time)
        } else {
            None
        }
    }
}

/// A parsed filter; the query text is already lower case.
pub enum JobFilter {
    Everything,
    FreeText(Vec<char>),
    Field(JobFilterField, Vec<char>),
}

/// The filter that a query denotes, with lower-cased query text.
pub ghost enum FilterModel {
    Everything,
    FreeText(Seq<char>),
    Field(JobFilterField, Seq<char>),
}

impl View for JobFilter {
    type V = FilterModel;

    open spec fn view(&self) -> FilterModel {
        match self {
            JobFilter::Everything => FilterModel::Everything,
            JobFilter::FreeText(q) => FilterModel::FreeText(q@),
            JobFilter::Field(f, q) => FilterModel::Field(*f, q@),
        }
    }
}

/// An empty query matches everything; `field:value` with a known field
/// looks at that column; anything else is free text.
pub open spec fn parse_filter(query: Seq<char>) -> FilterModel {
    let q = trim(query);
    if q.len() == 0 {
        FilterModel::Everything
    } else {
        match split_once(q, ':') {
            Some(p) => match filter_field_named(p.0) {
                Some(f) => FilterModel::Field(f, lowercase_of(trim(p.1))),
                None => FilterModel::FreeText(lowercase_of(q)),
            },
            None => FilterModel::FreeText(lowercase_of(q)),
        }
    }
}

/// `haystack.to_lowercase().contains(needle)`.
pub open spec fn contains_ci(haystack: Seq<char>, needle: Seq<char>) -> bool {
    contains_seq(lowercase_of(haystack), needle)
}

pub fn contains_case_insensitive(haystack: &[char], needle: &[char]) -> (r: bool)
    ensures
        r == contains_ci(haystack@, needle@),
{
    let l = lowercase(haystack);
    contains_chars(l.as_slice(), needle)
}

/// Whether a job passes a filter.
pub open spec fn filter_matches(f: FilterModel, j: JobModel) -> bool {
    match f {
        FilterModel::Everything => true,
        FilterModel::FreeText(q) => {
            ||| contains_ci(j.state, q)
            ||| contains_ci(j.state_compact, q)
            ||| contains_ci(j.partition, q)
            ||| contains_ci(job_id_text(j), q)
            ||| contains_ci(j.name, q)
            ||| contains_ci(j.user, q)
            ||| contains_ci(j.time, q)
        },
        FilterModel::Field(field, q) => match field {
            JobFilterField::Job => contains_ci(job_id_text(j), q) || contains_ci(j.name, q),
            JobFilterField::Id => contains_ci(job_id_text(j), q),
            JobFilterField::Name => contains_ci(j.name, q),
            JobFilterField::User => contains_ci(j.user, q),
            JobFilterField::Partition => contains_ci(j.partition, q),
            JobFilterField::State => contains_ci(j.state, q) || contains_ci(j.state_compact, q),
            JobFilterField::Time => contains_ci(j.time, q),
        },
    }
}

fn field_contains(s: &String, q: &Vec<char>) -> (r: bool)
    ensures
        r == contains_ci(s@, q@),
{
    let v = chars_of(s.as_str());
    contains_case_insensitive(v.as_slice(), q.as_slice())
}

impl JobFilter {
    /// Parses a filter query.
    pub fn parse(query: &str) -> (r: JobFilter)
        ensures
            r@ == parse_filter(query@),
    {
        let q = trim_str(query);
        if q.len() == 0 {
            return JobFilter::Everything;
        }
        match split_once_chars(q.as_slice(), ':') {
            Some((field, value)) => match JobFilterField::parse(field.as_slice()) {
                Some(f) => {
                    let v = trim_chars(value.as_slice());
                    JobFilter::Field(f, lowercase(v.as_slice()))
                },
                None => JobFilter::FreeText(lowercase(q.as_slice())),
            },
            None => JobFilter::FreeText(lowercase(q.as_slice())),
        }
    }

    /// Whether a job passes this filter.
    pub fn matches(&self, job: &Job) -> (r: bool)
        ensures
            r == filter_matches(self@, job@),
    {
        match self {
            JobFilter::Everything => true,
            JobFilter::FreeText(q) => {
                let id = job.id();
                field_contains(&job.state, q) || field_contains(&job.state_compact, q)
                    || field_contains(&job.partition, q) || field_contains(&id, q)
                    || field_contains(&job.name, q) || field_contains(&job.user, q)
                    || field_contains(&job.time, q)
            },
            JobFilter::Field(field, q) => match field {
                JobFilterField::Job => {
                    let id = job.id();
                    field_contains(&id, q) || field_contains(&job.name, q)
                },
                JobFilterField::Id => {
                    let id = job.id();
                    field_contains(&id, q)
                },
                JobFilterField::Name => field_contains(&job.name, q),
                JobFilterField::User => field_contains(&job.user, q),
                JobFilterField::Partition => field_contains(&job.partition, q),
                JobFilterField::State => field_contains(&job.state, q) || field_contains(
                    &job.state_compact,
                    q,
                ),
                JobFilterField::Time => field_contains(&job.time, q),
            },
        }
    }
}

/// The positions of the jobs that pass the filter, in list order.
pub open spec fn visible_indices(js: Seq<JobModel>, f: FilterModel) -> Seq<int>
    decreases js.len(),
{
    if js.len() == 0 {
        Seq::<int>::empty()
    } else {
        let prev = visible_indices(js.drop_last(), f);
        if filter_matches(f, js.last()) {
            prev.push(js.len() - 1)
        } else {
            prev
        }
    }
}

pub open spec fn index_views(v: Seq<usize>) -> Seq<int> {
    v.map_values(|i: usize| i as int)
}

/// The positions of the jobs that the filter query lets through.
pub fn visible_job_indices(jobs: &Vec<Job>, active_filter: &str) -> (r: Vec<usize>)
    ensures
        index_views(r@) == visible_indices(job_views(jobs@), parse_filter(active_filter@)),
{
    let filter = JobFilter::parse(active_filter);
    let ghost js = job_views(jobs@);
    let mut out: Vec<usize> = Vec::new();
    let mut i: usize = 0;
    assert(js.take(0) =~= Seq::<JobModel>::empty());
    while i < jobs.len()
        invariant
            js == job_views(jobs@),
            filter@ == parse_filter(active_filter@),
            i <= jobs.len(),
            index_views(out@) == visible_indices(js.take(i as int), filter@),
        decreases jobs.len() - i,
    {
        assert(js.take(i + 1).drop_last() =~= js.take(i as int));
        assert(js.take(i + 1).last() == jobs@[i as int]@);
        if filter.matches(&jobs[i]) {
            out.push(i);
            assert(index_views(out@) =~= visible_indices(js.take(i as int), filter@).push(i as int));
        }
        i = i + 1;
    }
    assert(js.take(jobs.len() as int) =~= js);
    out
}

} // verus!
