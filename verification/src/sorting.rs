//! The order of the job list: by a chosen column and direction, finished
//! (`CD`) jobs last, ties broken by job identity.
use vstd::prelude::*;

use crate::job::{job_id_text, job_views, Job, JobModel};
use crate::order::{compare_int, compare_u64, lex_compare, lex_lt, lex_order, Order};
use crate::resources::lemma_lex_order_flip;
use crate::split::{parse_unsigned, parse_unsigned_chars, split_on, split_once, split_once_chars, views};
use crate::text::{chars_of, eq_ignore_ascii_case, lower_ascii, lower_ascii_seq, to_ascii_lower};

verus! {

broadcast use vstd::seq_lib::group_to_multiset_ensures;

/// The column the job list is sorted by.
#[derive(Clone, Copy, PartialEq, Eq, Structural, Debug)]
pub enum JobSortField {
    State,
    Partition,
    Id,
    Name,
    User,
    Time,
}

/// The direction of the job list's order.
#[derive(Clone, Copy, PartialEq, Eq, Structural, Debug)]
pub enum SortDirection {
    Asc,
    Desc,
}

impl SortDirection {
    pub open spec fn spec_toggled(self) -> SortDirection {
        match self {
            SortDirection::Asc => SortDirection::Desc,
            SortDirection::Desc => SortDirection::Asc,
        }
    }

    /// The other direction.
    pub fn toggled(self) -> (r: SortDirection)
        ensures
            r == self.spec_toggled(),
    {
        match self {
            SortDirection::Asc => SortDirection::Desc,
            SortDirection::Desc => SortDirection::Asc,
        }
    }

    pub open spec fn spec_indicator(self) -> Seq<char> {
        match self {
            SortDirection::Asc => "▲"@,
            SortDirection::Desc => "▼"@,
        }
    }

    /// The arrow shown beside the sorted column.
    pub fn indicator(self) -> (r: &'static str)
        ensures
            r@ == self.spec_indicator(),
    {
        match self {
            SortDirection::Asc => "▲",
            SortDirection::Desc => "▼",
        }
    }
}

// ---------------------------------------------------------------------------
// Comparisons
// ---------------------------------------------------------------------------

/// Byte-wise order of two texts with ASCII letters folded to lower case.
pub open spec fn ascii_ci_order(a: Seq<char>, b: Seq<char>) -> Order {
    lex_order(lower_ascii_seq(a), lower_ascii_seq(b))
}

fn lower_ascii_chars(s: &[char]) -> (r: Vec<char>)
    ensures
        r@ == lower_ascii_seq(s@),
{
    let mut r: Vec<char> = Vec::new();
    let mut i: usize = 0;
    while i < s.len()
        invariant
            i <= s.len(),
            r@ == lower_ascii_seq(s@.take(i as int)),
        decreases s.len() - i,
    {
        r.push(to_ascii_lower(s[i]));
        i = i + 1;
        assert(r@ =~= lower_ascii_seq(s@.take(i as int)));
    }
    assert(s@.take(s.len() as int) =~= s@);
    r
}

pub fn ascii_ci_compare(a: &[char], b: &[char]) -> (r: Order)
    ensures
        r == ascii_ci_order(a@, b@),
{
    let la = lower_ascii_chars(a);
    let lb = lower_ascii_chars(b);
    lex_compare(la.as_slice(), lb.as_slice())
}

/// Numeric order where both texts are numbers, text order otherwise.
pub open spec fn numeric_text_order(a: Seq<char>, b: Seq<char>) -> Order {
    match (parse_unsigned(a, u64::MAX as int), parse_unsigned(b, u64::MAX as int)) {
        (Some(x), Some(y)) => compare_int(x, y),
        _ => ascii_ci_order(a, b),
    }
}

pub fn numeric_text_compare(a: &[char], b: &[char]) -> (r: Order)
    ensures
        r == numeric_text_order(a@, b@),
{
    match (parse_unsigned_chars(a, u64::MAX), parse_unsigned_chars(b, u64::MAX)) {
        (Some(x), Some(y)) => compare_u64(x, y),
        _ => ascii_ci_compare(a, b),
    }
}

/// A missing array step comes first.
pub open spec fn optional_numeric_order(a: Option<Seq<char>>, b: Option<Seq<char>>) -> Order {
    match (a, b) {
        (Some(x), Some(y)) => numeric_text_order(x, y),
        (None, Some(_)) => Order::Less,
        (Some(_), None) => Order::Greater,
        (None, None) => Order::Equal,
    }
}

/// A missing duration comes last.
pub open spec fn optional_int_order(a: Option<int>, b: Option<int>) -> Order {
    match (a, b) {
        (Some(x), Some(y)) => compare_int(x, y),
        (Some(_), None) => Order::Less,
        (None, Some(_)) => Order::Greater,
        (None, None) => Order::Equal,
    }
}

// ---------------------------------------------------------------------------
// Slurm durations: [days-]hours:minutes:seconds or minutes:seconds
// ---------------------------------------------------------------------------

pub open spec fn parse_u64_text(s: Seq<char>) -> Option<int> {
    parse_unsigned(s, u64::MAX as int)
}

/// The days of a duration with a `days-` prefix, 0 without one.
pub open spec fn duration_days(value: Seq<char>) -> Option<int> {
    match split_once(value, '-') {
        Some(p) => parse_u64_text(p.0),
        None => Some(0),
    }
}

/// The `hours:minutes:seconds` or `minutes:seconds` part of a duration.
pub open spec fn duration_clock(value: Seq<char>) -> Seq<char> {
    match split_once(value, '-') {
        Some(p) => p.1,
        None => value,
    }
}

/// Hours, minutes and seconds of the clock part, where each is a number.
pub open spec fn clock_fields(parts: Seq<Seq<char>>) -> Option<(int, int, int)> {
    if parts.len() == 3 {
        match (parse_u64_text(parts[0]), parse_u64_text(parts[1]), parse_u64_text(parts[2])) {
            (Some(h), Some(m), Some(s)) => Some((h, m, s)),
            _ => None,
        }
    } else if parts.len() == 2 {
        match (parse_u64_text(parts[0]), parse_u64_text(parts[1])) {
            (Some(m), Some(s)) => Some((0, m, s)),
            _ => None,
        }
    } else {
        None
    }
}

/// The seconds that a Slurm duration (`[days-][hours:]minutes:seconds`)
/// stands for, in unbounded integers.
pub open spec fn duration_seconds(value: Seq<char>) -> Option<int> {
    match (duration_days(value), clock_fields(split_on(duration_clock(value), ':'))) {
        (Some(d), Some(c)) => Some(d * 86400 + c.0 * 3600 + c.1 * 60 + c.2),
        _ => None,
    }
}

/// The duration, where it is one, fits in `u64`.
pub open spec fn duration_fits(value: Seq<char>) -> bool {
    duration_seconds(value) matches Some(v) ==> v <= u64::MAX
}


/// The seconds of a Slurm duration, in a type wide enough for every
/// duration whose fields fit in `u64`.
fn duration_seconds_wide(value: &[char]) -> (r: Option<u128>)
    ensures
        match r {
            Some(v) => duration_seconds(value@) == Some(v as int),
            None => duration_seconds(value@) is None,
        },
{
    let split = split_once_chars(value, '-');
    let (days_opt, rest) = match split {
        Some((d, rest)) => (parse_unsigned_chars(d.as_slice(), u64::MAX), rest),
        None => (Some(0u64), crate::text::slice_of(value, 0, value.len())),
    };
    assert(rest@ == duration_clock(value@));
    assert(match days_opt {
        Some(v) => duration_days(value@) == Some(v as int),
        None => duration_days(value@) is None,
    });
    let days = match days_opt {
        Some(v) => v,
        None => {
            return None;
        },
    };
    let parts = crate::split::split_chars(rest.as_slice(), ':');
    let ghost pv = split_on(duration_clock(value@), ':');
    assert(views(parts@) == pv);
    assert(parts@.len() == pv.len());
    if parts.len() < 2 || parts.len() > 3 {
        assert(clock_fields(pv) is None);
        return None;
    }
    assert(views(parts@)[0] == parts@[0]@);
    assert(views(parts@)[1] == parts@[1]@);
    let clock = if parts.len() == 3 {
        assert(views(parts@)[2] == parts@[2]@);
        match (
            parse_unsigned_chars(parts[0].as_slice(), u64::MAX),
            parse_unsigned_chars(parts[1].as_slice(), u64::MAX),
            parse_unsigned_chars(parts[2].as_slice(), u64::MAX),
        ) {
            (Some(h), Some(m), Some(s)) => Some((h, m, s)),
            _ => None,
        }
    } else {
        match (
            parse_unsigned_chars(parts[0].as_slice(), u64::MAX),
            parse_unsigned_chars(parts[1].as_slice(), u64::MAX),
        ) {
            (Some(m), Some(s)) => Some((0u64, m, s)),
            _ => None,
        }
    };
    assert(match clock {
        Some(c) => clock_fields(pv) == Some((c.0 as int, c.1 as int, c.2 as int)),
        None => clock_fields(pv) is None,
    });
    let (h, m, s) = match clock {
        Some(c) => c,
        None => {
            return None;
        },
    };
    assert(duration_seconds(value@) == Some(days * 86400 + h * 3600 + m * 60 + s));
    let (d, h, m, s) = (days as u128, h as u128, m as u128, s as u128);
    assert(d * 86400 + h * 3600 + m * 60 + s <= u128::MAX) by (nonlinear_arith)
        requires
            0 <= d <= u64::MAX,
            0 <= h <= u64::MAX,
            0 <= m <= u64::MAX,
            0 <= s <= u64::MAX,
    ;
    Some(d * 86400 + h * 3600 + m * 60 + s)
}

/// Parses a Slurm duration into seconds.
pub fn parse_slurm_duration(value: &[char]) -> (r: Option<u64>)
    requires
        duration_fits(value@),
    ensures
        match r {
            Some(v) => duration_seconds(value@) == Some(v as int),
            None => duration_seconds(value@) is None,
        },
{
    match duration_seconds_wide(value) {
        Some(v) => Some(v as u64),
        None => None,
    }
}

/// Whether a duration, where it is one, fits in `u64`.
pub fn duration_fits_check(value: &[char]) -> (r: bool)
    ensures
        r == duration_fits(value@),
{
    match duration_seconds_wide(value) {
        Some(v) => v <= u64::MAX as u128,
        None => true,
    }
}

/// Whether the durations of all jobs fit in `u64`.
pub fn durations_fit_check(jobs: &Vec<Job>) -> (r: bool)
    ensures
        r == durations_fit(jobs@),
{
    let mut i: usize = 0;
    while i < jobs.len()
        invariant
            i <= jobs.len(),
            forall|k: int| 0 <= k < i ==> duration_fits(job_model(#[trigger] jobs@[k]).time),
        decreases jobs.len() - i,
    {
        let t = chars_of(jobs[i].time.as_str());
        proof {
            reveal(job_model);
        }
        if !duration_fits_check(t.as_slice()) {
            return false;
        }
        i = i + 1;
    }
    true
}



// ---------------------------------------------------------------------------
// Job order
// ---------------------------------------------------------------------------

pub open spec fn duration_order(a: Seq<char>, b: Seq<char>) -> Order {
    optional_int_order(duration_seconds(a), duration_seconds(b)).tie_break(ascii_ci_order(a, b))
}

/// Job id numerically, then array step, then the shown identifier.
pub open spec fn identity_order(a: JobModel, b: JobModel) -> Order {
    numeric_text_order(a.job_id, b.job_id).tie_break(
        optional_numeric_order(a.array_step, b.array_step),
    ).tie_break(ascii_ci_order(job_id_text(a), job_id_text(b)))
}

/// The order of two jobs by one column, ties broken by identity.
pub open spec fn field_order(a: JobModel, b: JobModel, field: JobSortField) -> Order {
    match field {
        JobSortField::State => ascii_ci_order(a.state_compact, b.state_compact),
        JobSortField::Partition => ascii_ci_order(a.partition, b.partition),
        JobSortField::Id => identity_order(a, b),
        JobSortField::Name => ascii_ci_order(a.name, b.name),
        JobSortField::User => ascii_ci_order(a.user, b.user),
        JobSortField::Time => duration_order(a.time, b.time),
    }.tie_break(identity_order(a, b))
}

/// A job whose short state is `CD` (any case).
pub open spec fn is_completed(j: JobModel) -> bool {
    lower_ascii_seq(j.state_compact) == lower_ascii_seq("CD"@)
}

pub open spec fn bool_order(a: bool, b: bool) -> Order {
    if a == b {
        Order::Equal
    } else if !a {
        Order::Less
    } else {
        Order::Greater
    }
}

/// The job list's order: completed jobs after the others, then by the column
/// in the chosen direction.
#[verifier::opaque]
pub open spec fn job_order(a: JobModel, b: JobModel, field: JobSortField, dir: SortDirection) -> Order {
    let o = field_order(a, b, field);
    bool_order(is_completed(a), is_completed(b)).tie_break(
        match dir {
            SortDirection::Asc => o,
            SortDirection::Desc => o.flip(),
        },
    )
}

/// The model of a job, kept folded in sorting proofs.
#[verifier::opaque]
pub open spec fn job_model(j: Job) -> JobModel {
    j@
}

/// Every job comes no later than the next one.
pub open spec fn sorted_jobs(js: Seq<Job>, field: JobSortField, dir: SortDirection) -> bool {
    forall|i: int| 0 <= i < js.len() - 1 ==> #[trigger] in_order_at(js, i, field, dir)
}

/// The job at `i` comes no later than the job after it.
pub open spec fn in_order_at(js: Seq<Job>, i: int, field: JobSortField, dir: SortDirection) -> bool {
    job_order(job_model(js[i]), job_model(js[i + 1]), field, dir) != Order::Greater
}

/// The durations of all jobs fit in `u64`.
pub open spec fn durations_fit(js: Seq<Job>) -> bool {
    forall|i: int| 0 <= i < js.len() ==> duration_fits(job_model(#[trigger] js[i]).time)
}


pub proof fn lemma_ascii_ci_flip(a: Seq<char>, b: Seq<char>)
    ensures
        ascii_ci_order(a, b) == ascii_ci_order(b, a).flip(),
{
    lemma_lex_order_flip(lower_ascii_seq(a), lower_ascii_seq(b));
}


proof fn lemma_numeric_flip(a: Seq<char>, b: Seq<char>)
    ensures
        numeric_text_order(a, b) == numeric_text_order(b, a).flip(),
{
    lemma_ascii_ci_flip(a, b);
}

proof fn lemma_identity_flip(a: JobModel, b: JobModel)
    ensures
        identity_order(a, b) == identity_order(b, a).flip(),
{
    lemma_numeric_flip(a.job_id, b.job_id);
    match (a.array_step, b.array_step) {
        (Some(x), Some(y)) => lemma_numeric_flip(x, y),
        _ => {},
    }
    lemma_ascii_ci_flip(job_id_text(a), job_id_text(b));
}

/// Comparing two jobs the other way round gives the opposite result.
pub proof fn lemma_job_order_flip(a: JobModel, b: JobModel, field: JobSortField, dir: SortDirection)
    ensures
        job_order(a, b, field, dir) == job_order(b, a, field, dir).flip(),
{
    lemma_identity_flip(a, b);
    lemma_ascii_ci_flip(a.state_compact, b.state_compact);
    lemma_ascii_ci_flip(a.partition, b.partition);
    lemma_ascii_ci_flip(a.name, b.name);
    lemma_ascii_ci_flip(a.user, b.user);
    lemma_ascii_ci_flip(a.time, b.time);
    reveal(job_order);
}

fn identity_compare(a: &Job, b: &Job) -> (r: Order)
    ensures
        r == identity_order(a@, b@),
{
    let ja = chars_of(a.job_id.as_str());
    let jb = chars_of(b.job_id.as_str());
    let first = numeric_text_compare(ja.as_slice(), jb.as_slice());
    if first != Order::Equal {
        return first;
    }
    let second = match (&a.array_step, &b.array_step) {
        (Some(x), Some(y)) => {
            let xv = chars_of(x.as_str());
            let yv = chars_of(y.as_str());
            numeric_text_compare(xv.as_slice(), yv.as_slice())
        },
        (None, Some(_)) => Order::Less,
        (Some(_), None) => Order::Greater,
        (None, None) => Order::Equal,
    };
    if second != Order::Equal {
        return second;
    }
    let ia = chars_of(a.id().as_str());
    let ib = chars_of(b.id().as_str());
    ascii_ci_compare(ia.as_slice(), ib.as_slice())
}

fn duration_compare(a: &[char], b: &[char]) -> (r: Order)
    requires
        duration_fits(a@),
        duration_fits(b@),
    ensures
        r == duration_order(a@, b@),
{
    let first = match (parse_slurm_duration(a), parse_slurm_duration(b)) {
        (Some(x), Some(y)) => compare_u64(x, y),
        (Some(_), None) => Order::Less,
        (None, Some(_)) => Order::Greater,
        (None, None) => Order::Equal,
    };
    if first != Order::Equal {
        return first;
    }
    ascii_ci_compare(a, b)
}

fn field_compare(a: &Job, b: &Job, field: JobSortField) -> (r: Order)
    requires
        field == JobSortField::Time ==> duration_fits(a@.time) && duration_fits(b@.time),
    ensures
        r == field_order(a@, b@, field),
{
    let first = match field {
        JobSortField::State => ascii_ci_compare(
            chars_of(a.state_compact.as_str()).as_slice(),
            chars_of(b.state_compact.as_str()).as_slice(),
        ),
        JobSortField::Partition => ascii_ci_compare(
            chars_of(a.partition.as_str()).as_slice(),
            chars_of(b.partition.as_str()).as_slice(),
        ),
        JobSortField::Id => identity_compare(a, b),
        JobSortField::Name => ascii_ci_compare(
            chars_of(a.name.as_str()).as_slice(),
            chars_of(b.name.as_str()).as_slice(),
        ),
        JobSortField::User => ascii_ci_compare(
            chars_of(a.user.as_str()).as_slice(),
            chars_of(b.user.as_str()).as_slice(),
        ),
        JobSortField::Time => duration_compare(
            chars_of(a.time.as_str()).as_slice(),
            chars_of(b.time.as_str()).as_slice(),
        ),
    };
    if first != Order::Equal {
        return first;
    }
    identity_compare(a, b)
}

pub fn is_completed_job(j: &Job) -> (r: bool)
    ensures
        r == is_completed(j@),
{
    let s = chars_of(j.state_compact.as_str());
    let cd = chars_of("CD");
    eq_ignore_ascii_case(s.as_slice(), cd.as_slice())
}

/// Compares two jobs in the job list's order.
pub fn job_compare(a: &Job, b: &Job, field: JobSortField, dir: SortDirection) -> (r: Order)
    requires
        field == JobSortField::Time ==> duration_fits(job_model(*a).time) && duration_fits(job_model(*b).time),
    ensures
        r == job_order(job_model(*a), job_model(*b), field, dir),
{
    reveal(job_order);
    reveal(job_model);
    let ca = is_completed_job(a);
    let cb = is_completed_job(b);
    if ca != cb {
        return if !ca {
            Order::Less
        } else {
            Order::Greater
        };
    }
    let o = field_compare(a, b, field);
    match dir {
        SortDirection::Asc => o,
        SortDirection::Desc => o.reverse(),
    }
}

proof fn lemma_insert_keeps_sorted_jobs(before: Seq<Job>, k: int, x: Job, field: JobSortField, dir: SortDirection)
    requires
        0 <= k <= before.len(),
        sorted_jobs(before, field, dir),
        k > 0 ==> job_order(job_model(x), job_model(before[k - 1]), field, dir) != Order::Less,
        k < before.len() ==> job_order(job_model(x), job_model(before[k]), field, dir) == Order::Less,
    ensures
        sorted_jobs(before.insert(k, x), field, dir),
{
    let out = before.insert(k, x);
    assert forall|i: int| 0 <= i < out.len() - 1 implies #[trigger] in_order_at(out, i, field, dir) by {
        if i + 1 < k {
            assert(out[i] == before[i]);
            assert(out[i + 1] == before[i + 1]);
            assert(in_order_at(before, i, field, dir));
        } else if i + 1 == k {
            lemma_job_order_flip(job_model(before[i]), job_model(x), field, dir);
        } else if i == k {
        } else {
            assert(out[i] == before[i - 1]);
            assert(out[i + 1] == before[i]);
            assert(in_order_at(before, i - 1, field, dir));
        }
    }
}

/// Where each sorted job stood before: `p[i]` is the place in `input` of
/// `out[i]`, no place is taken twice, and jobs that compare equal keep
/// the order they had.
pub open spec fn stable_arrangement(
    out: Seq<Job>,
    input: Seq<Job>,
    p: Seq<int>,
    field: JobSortField,
    dir: SortDirection,
) -> bool {
    &&& p.len() == out.len()
    &&& forall|i: int| 0 <= i < out.len() ==> 0 <= #[trigger] p[i] < input.len() && out[i] == input[p[i]]
    &&& forall|i: int, j: int| 0 <= i < j < out.len() ==> #[trigger] p[i] != #[trigger] p[j]
    &&& forall|i: int, j: int|
        0 <= i < j < out.len() && job_order(job_model(out[i]), job_model(out[j]), field, dir) == Order::Equal
            ==> #[trigger] p[i] < #[trigger] p[j]
}

/// Inserts `x` after every job that does not come after it: each job after
/// the place taken comes after `x`.
#[verifier::rlimit(40)]
fn insert_sorted(out: &mut Vec<Job>, x: Job, field: JobSortField, dir: SortDirection) -> (k: usize)
    requires
        sorted_jobs(old(out)@, field, dir),
        field == JobSortField::Time ==> durations_fit(old(out)@) && duration_fits(job_model(x).time),
    ensures
        k <= old(out)@.len(),
        final(out)@ == old(out)@.insert(k as int, x),
        forall|i: int|
            k <= i < old(out)@.len() ==> job_order(job_model(x), job_model(#[trigger] old(out)@[i]), field, dir)
                == Order::Less,
        final(out)@.len() == old(out)@.len() + 1,
        final(out)@.to_multiset() == old(out)@.to_multiset().insert(x),
        sorted_jobs(final(out)@, field, dir),
        field == JobSortField::Time ==> durations_fit(final(out)@),
{
    let mut k: usize = out.len();
    while k > 0 && job_compare(&x, &out[k - 1], field, dir) == Order::Less
        invariant
            k <= out@.len(),
            field == JobSortField::Time ==> duration_fits(job_model(x).time),
            field == JobSortField::Time ==> durations_fit(out@),
            forall|i: int|
                k <= i < out@.len() ==> job_order(job_model(x), job_model(#[trigger] out@[i]), field, dir)
                    == Order::Less,
        decreases k,
    {
        k = k - 1;
    }
    let ghost before = out@;
    out.insert(k, x);
    proof {
        assert(out@ == before.insert(k as int, x));
        if field == JobSortField::Time {
            assert forall|i: int| 0 <= i < out@.len() implies duration_fits(job_model(#[trigger] out@[i]).time) by {
                if i < k {
                    assert(before[i] == out@[i]);
                } else if i > k {
                    assert(before[i - 1] == out@[i]);
                }
            }
        }
        lemma_insert_keeps_sorted_jobs(before, k as int, x, field, dir);
    }
    k
}

/// Putting the next input job at a place after which every job comes after
/// it keeps the arrangement stable.
proof fn lemma_insert_keeps_stable(
    before: Seq<Job>,
    all: Seq<Job>,
    p: Seq<int>,
    k: int,
    field: JobSortField,
    dir: SortDirection,
)
    requires
        before.len() < all.len(),
        0 <= k <= before.len(),
        stable_arrangement(before, all.take(before.len() as int), p, field, dir),
        forall|i: int|
            k <= i < before.len() ==> job_order(job_model(all[before.len() as int]), job_model(#[trigger] before[i]), field, dir)
                == Order::Less,
    ensures
        stable_arrangement(
            before.insert(k, all[before.len() as int]),
            all.take(before.len() + 1 as int),
            p.insert(k, before.len() as int),
            field,
            dir,
        ),
{
    let idx = before.len() as int;
    let x = all[idx];
    let out = before.insert(k, x);
    let q = p.insert(k, idx);
    let t = all.take(idx);
    let t1 = all.take(idx + 1);
    assert forall|i: int| 0 <= i < out.len() implies 0 <= #[trigger] q[i] < t1.len() && out[i] == t1[q[i]] by {
        if i < k {
            assert(q[i] == p[i] && out[i] == before[i]);
            assert(t[p[i]] == all[p[i]]);
        } else if i > k {
            assert(q[i] == p[i - 1] && out[i] == before[i - 1]);
            assert(t[p[i - 1]] == all[p[i - 1]]);
        }
    }
    assert forall|i: int, j: int| 0 <= i < j < out.len() implies #[trigger] q[i] != #[trigger] q[j] by {
        if i < k && j < k {
            assert(p[i] != p[j]);
        } else if i < k && j == k {
            assert(0 <= p[i] < idx);
        } else if i < k && j > k {
            assert(p[i] != p[j - 1]);
        } else if i == k {
            assert(0 <= p[j - 1] < idx);
        } else {
            assert(p[i - 1] != p[j - 1]);
        }
    }
    assert forall|i: int, j: int|
        0 <= i < j < out.len() && job_order(job_model(out[i]), job_model(out[j]), field, dir) == Order::Equal
            implies #[trigger] q[i] < #[trigger] q[j] by {
        if i < k && j < k {
            assert(out[i] == before[i] && out[j] == before[j]);
            assert(p[i] < p[j]);
        } else if i < k && j == k {
            assert(0 <= p[i] < idx);
        } else if i < k && j > k {
            assert(out[i] == before[i] && out[j] == before[j - 1]);
            assert(p[i] < p[j - 1]);
        } else if i == k {
            assert(out[j] == before[j - 1]);
            assert(job_order(job_model(x), job_model(before[j - 1]), field, dir) == Order::Less);
        } else {
            assert(out[i] == before[i - 1] && out[j] == before[j - 1]);
            assert(p[i - 1] < p[j - 1]);
        }
    }
}

/// Sorts jobs into the job list's order: completed jobs last, then by the
/// column in the chosen direction; jobs that compare equal keep their order.
pub fn sort_jobs(jobs: Vec<Job>, field: JobSortField, dir: SortDirection) -> (r: Vec<Job>)
    requires
        field == JobSortField::Time ==> durations_fit(jobs@),
    ensures
        r@.to_multiset() == jobs@.to_multiset(),
        sorted_jobs(r@, field, dir),
        exists|p: Seq<int>| stable_arrangement(r@, jobs@, p, field, dir),
{
    let ghost all = jobs@;
    let mut rest = jobs;
    let mut rev: Vec<Job> = Vec::new();
    while rest.len() > 0
        invariant
            rest@ + rev@.reverse() == all,
        decreases rest.len(),
    {
        let x = rest.pop().unwrap();
        rev.push(x);
        assert(rest@ + rev@.reverse() =~= all);
    }
    assert(rev@.reverse() =~= all);
    let n = rev.len();
    let mut out: Vec<Job> = Vec::new();
    let ghost mut p: Seq<int> = Seq::empty();
    assert(all.take(0) =~= Seq::<Job>::empty());
    while rev.len() > 0
        invariant
            n == all.len(),
            field == JobSortField::Time ==> durations_fit(all),
            out@.len() + rev@.len() == n,
            forall|k: int| 0 <= k < rev@.len() ==> #[trigger] rev@[k] == all[n - 1 - k],
            out@.to_multiset() == all.take(out@.len() as int).to_multiset(),
            field == JobSortField::Time ==> durations_fit(out@),
            sorted_jobs(out@, field, dir),
            stable_arrangement(out@, all.take(out@.len() as int), p, field, dir),
        decreases rev.len(),
    {
        let ghost idx = out@.len() as int;
        let ghost before = out@;
        let x = rev.pop().unwrap();
        assert(x == all[idx]);
        let k = insert_sorted(&mut out, x, field, dir);
        proof {
            lemma_insert_keeps_stable(before, all, p, k as int, field, dir);
            p = p.insert(k as int, idx);
        }
        assert(all.take(idx + 1) =~= all.take(idx).push(x));
    }
    assert(all.take(n as int) =~= all);
    out
}

} // verus!
