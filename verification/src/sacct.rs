//! Parsing the `--parsable2` output of `sacct` into jobs, and the group scope
//! that keeps other users' finished jobs out of the list.
use vstd::prelude::*;

use crate::job::{job_views, Job, JobModel};
use crate::text::string_views;
use crate::paths::{join_path, join_path_chars};
use crate::split::{
    first_index, lines, lines_chars, split_on, split_once, split_once_chars, splitn_chars,
    splitn_on, views, words, words_chars,
};
use crate::text::{chars_eq, chars_eq_str, chars_of, extend_chars, slice_of, string_of, trim, trim_chars};

verus! {

/// Number of `|`-separated fields that one `sacct` line carries.
pub const FIELD_COUNT: usize = 16;

/// The array index that Slurm reports for a job outside any array.
pub open spec fn no_array_value() -> Seq<char> {
    "4294967294"@
}

// ---------------------------------------------------------------------------
// Field normalisation
// ---------------------------------------------------------------------------

/// A trimmed field, or nothing when it is empty or one of Slurm's placeholders.
pub open spec fn normalize_optional(v: Seq<char>) -> Option<Seq<char>> {
    let t = trim(v);
    if t.len() == 0 || t == "None"@ || t == "Unknown"@ || t == "(null)"@ || t == "N/A"@ {
        None
    } else {
        Some(t)
    }
}

/// A trimmed field, or nothing when it is empty.
pub open spec fn nonempty(v: Seq<char>) -> Option<Seq<char>> {
    let t = trim(v);
    if t.len() == 0 {
        None
    } else {
        Some(t)
    }
}

pub open spec fn or_empty(o: Option<Seq<char>>) -> Seq<char> {
    match o {
        Some(s) => s,
        None => Seq::<char>::empty(),
    }
}

fn normalize_optional_chars(v: &[char]) -> (r: Option<Vec<char>>)
    ensures
        match r {
            Some(t) => normalize_optional(v@) == Some(t@),
            None => normalize_optional(v@) is None,
        },
{
    let t = trim_chars(v);
    if t.len() == 0 || chars_eq_str(t.as_slice(), "None") || chars_eq_str(t.as_slice(), "Unknown")
        || chars_eq_str(t.as_slice(), "(null)") || chars_eq_str(t.as_slice(), "N/A") {
        None
    } else {
        Some(t)
    }
}

fn nonempty_chars(v: &[char]) -> (r: Option<Vec<char>>)
    ensures
        match r {
            Some(t) => nonempty(v@) == Some(t@),
            None => nonempty(v@) is None,
        },
{
    let t = trim_chars(v);
    if t.len() == 0 {
        None
    } else {
        Some(t)
    }
}

fn or_empty_chars(o: Option<Vec<char>>) -> (r: Vec<char>)
    ensures
        r@ == or_empty(match o {
            Some(t) => Some(t@),
            None => None,
        }),
{
    match o {
        Some(t) => t,
        None => Vec::new(),
    }
}

// ---------------------------------------------------------------------------
// Job identifiers and states
// ---------------------------------------------------------------------------

/// `(job_id, array_id, array_step)` of an identifier such as `50_7`.
pub open spec fn split_job_id(id: Seq<char>) -> (Seq<char>, Seq<char>, Option<Seq<char>>) {
    match split_once(id, '_') {
        Some(p) => if p.0.len() > 0 && p.1.len() > 0 {
            (p.0, p.0, Some(p.1))
        } else {
            (id, id, None)
        },
        None => (id, id, None),
    }
}

fn split_job_id_chars(id: &[char]) -> (r: (Vec<char>, Vec<char>, Option<Vec<char>>))
    ensures
        split_job_id(id@) == (r.0@, r.1@, match r.2 {
            Some(s) => Some(s@),
            None => None,
        }),
{
    match split_once_chars(id, '_') {
        Some((a, b)) => {
            if a.len() > 0 && b.len() > 0 {
                let a2 = slice_of(a.as_slice(), 0, a.len());
                assert(a2@ =~= a@);
                (a, a2, Some(b))
            } else {
                (slice_of(id, 0, id.len()), slice_of(id, 0, id.len()), None)
            }
        },
        None => (slice_of(id, 0, id.len()), slice_of(id, 0, id.len()), None),
    }
}

/// The first whitespace-separated word, or nothing.
pub open spec fn first_word(s: Seq<char>) -> Seq<char> {
    if words(s).len() > 0 {
        words(s)[0]
    } else {
        Seq::<char>::empty()
    }
}

pub fn first_word_chars(s: &[char]) -> (r: Vec<char>)
    ensures
        r@ == first_word(s@),
{
    let ws = words_chars(s);
    if ws.len() > 0 {
        assert(views(ws@)[0] == ws@[0]@);
        slice_of(ws[0].as_slice(), 0, ws[0].len())
    } else {
        Vec::new()
    }
}

/// Slurm's short code for a job state word; an unknown word stands for itself.
pub open spec fn state_code(w: Seq<char>) -> Seq<char> {
    if w == "BOOT_FAIL"@ {
        "BF"@
    } else if w == "CANCELLED"@ {
        "CA"@
    } else if w == "COMPLETED"@ {
        "CD"@
    } else if w == "COMPLETING"@ {
        "CG"@
    } else if w == "CONFIGURING"@ {
        "CF"@
    } else if w == "DEADLINE"@ {
        "DL"@
    } else if w == "FAILED"@ {
        "F"@
    } else if w == "NODE_FAIL"@ {
        "NF"@
    } else if w == "OUT_OF_MEMORY"@ {
        "OOM"@
    } else if w == "PENDING"@ {
        "PD"@
    } else if w == "PREEMPTED"@ {
        "PR"@
    } else if w == "REQUEUED"@ {
        "RQ"@
    } else if w == "RESIZING"@ {
        "RS"@
    } else if w == "REVOKED"@ {
        "RV"@
    } else if w == "RUNNING"@ {
        "R"@
    } else if w == "SPECIAL_EXIT"@ {
        "SE"@
    } else if w == "STOPPED"@ {
        "ST"@
    } else if w == "SUSPENDED"@ {
        "S"@
    } else if w == "TIMEOUT"@ {
        "TO"@
    } else {
        w
    }
}

/// The short state code of a state such as `CANCELLED by 2028`.
pub open spec fn compact_state(state: Seq<char>) -> Seq<char> {
    state_code(first_word(state))
}

fn state_code_chars(w: &[char]) -> (r: Vec<char>)
    ensures
        r@ == state_code(w@),
{
    if chars_eq_str(w, "BOOT_FAIL") {
        chars_of("BF")
    } else if chars_eq_str(w, "CANCELLED") {
        chars_of("CA")
    } else if chars_eq_str(w, "COMPLETED") {
        chars_of("CD")
    } else if chars_eq_str(w, "COMPLETING") {
        chars_of("CG")
    } else if chars_eq_str(w, "CONFIGURING") {
        chars_of("CF")
    } else if chars_eq_str(w, "DEADLINE") {
        chars_of("DL")
    } else if chars_eq_str(w, "FAILED") {
        chars_of("F")
    } else if chars_eq_str(w, "NODE_FAIL") {
        chars_of("NF")
    } else if chars_eq_str(w, "OUT_OF_MEMORY") {
        chars_of("OOM")
    } else if chars_eq_str(w, "PENDING") {
        chars_of("PD")
    } else if chars_eq_str(w, "PREEMPTED") {
        chars_of("PR")
    } else if chars_eq_str(w, "REQUEUED") {
        chars_of("RQ")
    } else if chars_eq_str(w, "RESIZING") {
        chars_of("RS")
    } else if chars_eq_str(w, "REVOKED") {
        chars_of("RV")
    } else if chars_eq_str(w, "RUNNING") {
        chars_of("R")
    } else if chars_eq_str(w, "SPECIAL_EXIT") {
        chars_of("SE")
    } else if chars_eq_str(w, "STOPPED") {
        chars_of("ST")
    } else if chars_eq_str(w, "SUSPENDED") {
        chars_of("S")
    } else if chars_eq_str(w, "TIMEOUT") {
        chars_of("TO")
    } else {
        slice_of(w, 0, w.len())
    }
}

pub fn compact_state_chars(state: &[char]) -> (r: Vec<char>)
    ensures
        r@ == compact_state(state@),
{
    let w = first_word_chars(state);
    state_code_chars(w.as_slice())
}

/// Whether a state word belongs to a job that has ended.
pub open spec fn is_final_state(w: Seq<char>) -> bool {
    ||| w == "BOOT_FAIL"@
    ||| w == "CANCELLED"@
    ||| w == "COMPLETED"@
    ||| w == "DEADLINE"@
    ||| w == "FAILED"@
    ||| w == "NODE_FAIL"@
    ||| w == "OUT_OF_MEMORY"@
    ||| w == "PREEMPTED"@
    ||| w == "REVOKED"@
    ||| w == "SPECIAL_EXIT"@
    ||| w == "TIMEOUT"@
}

/// Whether a job in this state is history rather than active.
pub open spec fn is_historical(state: Seq<char>) -> bool {
    is_final_state(first_word(state))
}

pub fn is_historical_chars(state: &[char]) -> (r: bool)
    ensures
        r == is_historical(state@),
{
    let w = first_word_chars(state);
    let w = w.as_slice();
    chars_eq_str(w, "BOOT_FAIL") || chars_eq_str(w, "CANCELLED") || chars_eq_str(w, "COMPLETED")
        || chars_eq_str(w, "DEADLINE") || chars_eq_str(w, "FAILED") || chars_eq_str(w, "NODE_FAIL")
        || chars_eq_str(w, "OUT_OF_MEMORY") || chars_eq_str(w, "PREEMPTED") || chars_eq_str(
        w,
        "REVOKED",
    ) || chars_eq_str(w, "SPECIAL_EXIT") || chars_eq_str(w, "TIMEOUT")
}

// ---------------------------------------------------------------------------
// Output path patterns (`%j`, `%A_%a`, ...)
// ---------------------------------------------------------------------------

/// The characters that may follow `%` in a Slurm filename pattern.
pub open spec fn is_token_char(c: char) -> bool {
    c == '%' || c == 'A' || c == 'a' || c == 'J' || c == 'j' || c == 'N' || c == 'n' || c == 's'
        || c == 't' || c == 'u' || c == 'x'
}

/// `pieces[0] + seps[0] + pieces[1] + ... + pieces[n]`.
pub open spec fn interleave(pieces: Seq<Seq<char>>, seps: Seq<Seq<char>>) -> Seq<char>
    decreases seps.len(),
{
    if seps.len() == 0 || pieces.len() == 0 {
        if pieces.len() > 0 {
            pieces[0]
        } else {
            Seq::<char>::empty()
        }
    } else {
        interleave(pieces.drop_last(), seps.drop_last()) + seps.last() + pieces.last()
    }
}

/// The parts of `s` between its tokens, and its tokens, found from left to
/// right: `%` followed by a token character is a token, and the search goes
/// on after it.
pub open spec fn token_scan(s: Seq<char>) -> (Seq<Seq<char>>, Seq<Seq<char>>)
    decreases s.len(),
{
    if s.len() == 0 {
        (seq![Seq::<char>::empty()], Seq::<Seq<char>>::empty())
    } else if s.len() >= 2 && s[0] == '%' && is_token_char(s[1]) {
        let rest = token_scan(s.skip(2));
        (seq![Seq::<char>::empty()] + rest.0, seq![s.take(2)] + rest.1)
    } else {
        let rest = token_scan(s.skip(1));
        (rest.0.update(0, seq![s[0]] + rest.0[0]), rest.1)
    }
}

/// The parts of a path between its tokens.
pub open spec fn token_pieces_of(path: Seq<char>) -> Seq<Seq<char>> {
    token_scan(path).0
}

/// The tokens of a path, in order.
pub open spec fn tokens_of(path: Seq<char>) -> Seq<Seq<char>> {
    token_scan(path).1
}

proof fn lemma_interleave_front(p0: Seq<char>, t: Seq<char>, ps: Seq<Seq<char>>, ts: Seq<Seq<char>>)
    requires
        ps.len() == ts.len() + 1,
    ensures
        interleave(seq![p0] + ps, seq![t] + ts) == p0 + t + interleave(ps, ts),
    decreases ts.len(),
{
    let a = seq![p0] + ps;
    let b = seq![t] + ts;
    if ts.len() == 0 {
        assert(a.drop_last() =~= seq![p0]);
        assert(b.drop_last() =~= Seq::<Seq<char>>::empty());
        assert(interleave(seq![p0], Seq::<Seq<char>>::empty()) == p0);
        assert(interleave(a, b) == interleave(a.drop_last(), b.drop_last()) + b.last() + a.last());
        assert(interleave(ps, ts) == ps[0]);
        assert(interleave(a, b) =~= p0 + t + interleave(ps, ts));
    } else {
        lemma_interleave_front(p0, t, ps.drop_last(), ts.drop_last());
        assert(a.drop_last() =~= seq![p0] + ps.drop_last());
        assert(b.drop_last() =~= seq![t] + ts.drop_last());
        assert(interleave(a, b) =~= p0 + t + interleave(ps, ts));
    }
}

proof fn lemma_interleave_first(c: Seq<char>, ps: Seq<Seq<char>>, ts: Seq<Seq<char>>)
    requires
        ps.len() == ts.len() + 1,
    ensures
        interleave(ps.update(0, c + ps[0]), ts) == c + interleave(ps, ts),
    decreases ts.len(),
{
    let q = ps.update(0, c + ps[0]);
    if ts.len() > 0 {
        lemma_interleave_first(c, ps.drop_last(), ts.drop_last());
        assert(q.drop_last() =~= ps.drop_last().update(0, c + ps.drop_last()[0]));
        assert(interleave(q, ts) =~= c + interleave(ps, ts));
    }
}

/// A path's tokens are `%` and a token character each; there is one part
/// more than tokens; and the parts with the tokens between them make up
/// the path again.
pub proof fn lemma_token_scan(s: Seq<char>)
    ensures
        token_pieces_of(s).len() == tokens_of(s).len() + 1,
        forall|i: int|
            0 <= i < tokens_of(s).len() ==> {
                &&& (#[trigger] tokens_of(s)[i]).len() == 2
                &&& tokens_of(s)[i][0] == '%'
                &&& is_token_char(tokens_of(s)[i][1])
            },
        interleave(token_pieces_of(s), tokens_of(s)) == s,
    decreases s.len(),
{
    if s.len() == 0 {
    } else if s.len() >= 2 && s[0] == '%' && is_token_char(s[1]) {
        let r = s.skip(2);
        lemma_token_scan(r);
        lemma_interleave_front(Seq::<char>::empty(), s.take(2), token_pieces_of(r), tokens_of(r));
        assert(tokens_of(s) == seq![s.take(2)] + tokens_of(r));
        assert forall|i: int| 0 <= i < tokens_of(s).len() implies {
            &&& (#[trigger] tokens_of(s)[i]).len() == 2
            &&& tokens_of(s)[i][0] == '%'
            &&& is_token_char(tokens_of(s)[i][1])
        } by {
            if i > 0 {
                assert(tokens_of(s)[i] == tokens_of(r)[i - 1]);
            }
        }
        assert(Seq::<char>::empty() + s.take(2) + r =~= s);
    } else {
        let r = s.skip(1);
        lemma_token_scan(r);
        lemma_interleave_first(seq![s[0]], token_pieces_of(r), tokens_of(r));
        assert(seq![s[0]] + r =~= s);
    }
}

/// `Regex::split` with the pattern `%(%|A|a|J|j|N|n|s|t|u|x)`: the parts of
/// `path` between the matches of the pattern. The pattern matches two
/// characters, so its leftmost-first matches are found by the scan that
/// `token_scan` states; no match gives the whole path as the one part.
#[verifier::external_body]
fn split_around_tokens(path: &str) -> (r: Vec<String>)
    ensures
        string_views(r@) == token_pieces_of(path@),
{
    let re = regex::Regex::new("%(%|A|a|J|j|N|n|s|t|u|x)").unwrap();
    re.split(path).map(|piece| piece.to_string()).collect()
}

/// `Regex::find_iter` with the pattern `%(%|A|a|J|j|N|n|s|t|u|x)`: the
/// successive non-overlapping matches in `path`, leftmost first, as
/// `token_scan` states them.
#[verifier::external_body]
fn find_tokens(path: &str) -> (r: Vec<String>)
    ensures
        string_views(r@) == tokens_of(path@),
{
    let re = regex::Regex::new("%(%|A|a|J|j|N|n|s|t|u|x)").unwrap();
    re.find_iter(path).map(|m| m.as_str().to_string()).collect()
}

/// The values that the tokens of an output path pattern stand for.
pub struct PathContext {
    pub array_master: Vec<char>,
    pub array_index: Vec<char>,
    pub id: Vec<char>,
    pub host: Vec<char>,
    pub user: Vec<char>,
    pub name: Vec<char>,
}

pub ghost struct PathContextModel {
    pub array_master: Seq<char>,
    pub array_index: Seq<char>,
    pub id: Seq<char>,
    pub host: Seq<char>,
    pub user: Seq<char>,
    pub name: Seq<char>,
}

impl View for PathContext {
    type V = PathContextModel;

    open spec fn view(&self) -> PathContextModel {
        PathContextModel {
            array_master: self.array_master@,
            array_index: self.array_index@,
            id: self.id@,
            host: self.host@,
            user: self.user@,
            name: self.name@,
        }
    }
}

/// What one token of a pattern stands for.
pub open spec fn token_value(t: Seq<char>, ctx: PathContextModel) -> Seq<char> {
    let c = t[1];
    if c == '%' {
        seq!['%']
    } else if c == 'A' {
        ctx.array_master
    } else if c == 'a' {
        ctx.array_index
    } else if c == 'J' || c == 'j' {
        ctx.id
    } else if c == 'N' {
        split_on(ctx.host, ',')[0]
    } else if c == 'n' || c == 't' {
        seq!['0']
    } else if c == 's' {
        "batch"@
    } else if c == 'u' {
        ctx.user
    } else {
        ctx.name
    }
}

/// A pattern with each token replaced by what it stands for.
pub open spec fn expand_tokens(template: Seq<char>, ctx: PathContextModel) -> Seq<char> {
    interleave(
        token_pieces_of(template),
        tokens_of(template).map_values(|t: Seq<char>| token_value(t, ctx)),
    )
}

/// The pattern Slurm uses when a job names no output file.
pub open spec fn path_template(path: Seq<char>, array_index: Seq<char>) -> Seq<char> {
    if path.len() == 0 {
        if array_index == no_array_value() {
            "slurm-%J.out"@
        } else {
            "slurm-%A_%a.out"@
        }
    } else {
        path
    }
}

/// The array index used in patterns: Slurm's placeholder for `N/A`.
pub open spec fn array_index_of(array_task_id: Seq<char>) -> Seq<char> {
    if array_task_id == "N/A"@ {
        no_array_value()
    } else {
        array_task_id
    }
}

/// The file a job writes to, given the output pattern it was submitted with.
pub open spec fn resolve_path(path: Seq<char>, ctx: PathContextModel, working_dir: Seq<char>) -> Seq<
    char,
> {
    join_path(working_dir, expand_tokens(path_template(path, ctx.array_index), ctx))
}

fn token_value_chars(t: &[char], ctx: &PathContext) -> (r: Vec<char>)
    requires
        t@.len() == 2,
    ensures
        r@ == token_value(t@, ctx@),
{
    let c = t[1];
    if c == '%' {
        let mut v = Vec::new();
        v.push('%');
        assert(v@ =~= seq!['%']);
        v
    } else if c == 'A' {
        slice_of(ctx.array_master.as_slice(), 0, ctx.array_master.len())
    } else if c == 'a' {
        slice_of(ctx.array_index.as_slice(), 0, ctx.array_index.len())
    } else if c == 'J' || c == 'j' {
        slice_of(ctx.id.as_slice(), 0, ctx.id.len())
    } else if c == 'N' {
        let parts = crate::split::split_chars(ctx.host.as_slice(), ',');
        proof {
            assert(views(parts@).len() >= 1) by {
                lemma_split_nonempty(ctx.host@);
            }
            assert(views(parts@)[0] == parts@[0]@);
        }
        slice_of(parts[0].as_slice(), 0, parts[0].len())
    } else if c == 'n' || c == 't' {
        let mut v = Vec::new();
        v.push('0');
        assert(v@ =~= seq!['0']);
        v
    } else if c == 's' {
        chars_of("batch")
    } else if c == 'u' {
        slice_of(ctx.user.as_slice(), 0, ctx.user.len())
    } else {
        slice_of(ctx.name.as_slice(), 0, ctx.name.len())
    }
}

proof fn lemma_split_nonempty(s: Seq<char>)
    ensures
        split_on(s, ',').len() >= 1,
    decreases s.len(),
{
    if s.len() > 0 {
        lemma_split_nonempty(s.drop_last());
    }
}

/// Replaces each token of `template` by what it stands for.
pub fn expand_tokens_chars(template: &[char], ctx: &PathContext) -> (r: Vec<char>)
    ensures
        r@ == expand_tokens(template@, ctx@),
{
    let st = string_of(template);
    let pieces = split_around_tokens(st.as_str());
    let tokens = find_tokens(st.as_str());
    let ghost vals = tokens_of(template@).map_values(|t: Seq<char>| token_value(t, ctx@));
    let ghost ps = token_pieces_of(template@);
    proof {
        lemma_token_scan(template@);
        assert forall|k: int| 0 <= k < tokens@.len() implies #[trigger] tokens@[k]@.len() == 2 by {
            assert(string_views(tokens@)[k] == tokens@[k]@);
        }
    }
    assert(string_views(pieces@) == ps);
    assert(ps.len() == tokens.len() + 1);
    assert(string_views(pieces@)[0] == pieces@[0]@);
    let mut out = chars_of(pieces[0].as_str());
    let mut i: usize = 0;
    assert(ps.take(1) =~= seq![ps[0]]);
    assert(vals.take(0) =~= Seq::<Seq<char>>::empty());
    while i < tokens.len()
        invariant
            string_views(pieces@) == ps,
            string_views(tokens@) == tokens_of(template@),
            ps.len() == tokens.len() + 1,
            vals == tokens_of(template@).map_values(|t: Seq<char>| token_value(t, ctx@)),
            forall|k: int| 0 <= k < tokens@.len() ==> #[trigger] tokens@[k]@.len() == 2,
            i <= tokens.len(),
            out@ == interleave(ps.take(i + 1), vals.take(i as int)),
        decreases tokens.len() - i,
    {
        let tv = chars_of(tokens[i].as_str());
        assert(tokens@[i as int]@.len() == 2);
        let v = token_value_chars(tv.as_slice(), ctx);
        assert(string_views(tokens@)[i as int] == tokens@[i as int]@);
        assert(v@ == vals[i as int]);
        extend_chars(&mut out, v.as_slice());
        assert(string_views(pieces@)[i + 1] == pieces@[i + 1]@);
        let p = chars_of(pieces[i + 1].as_str());
        extend_chars(&mut out, p.as_slice());
        proof {
            let a = ps.take(i + 2);
            let b = vals.take(i + 1);
            assert(a.drop_last() =~= ps.take(i + 1));
            assert(b.drop_last() =~= vals.take(i as int));
            assert(a.last() == ps[i + 1]);
            assert(b.last() == vals[i as int]);
        }
        i = i + 1;
    }
    assert(ps.take(tokens.len() + 1) =~= ps);
    assert(vals.take(tokens.len() as int) =~= vals);
    out
}

/// Expands an output pattern and places it under the working directory.
pub fn resolve_path_chars(path: &[char], ctx: &PathContext, working_dir: &[char]) -> (r: Vec<char>)
    ensures
        r@ == resolve_path(path@, ctx@, working_dir@),
{
    let template = if path.len() == 0 {
        if chars_eq_str(ctx.array_index.as_slice(), "4294967294") {
            chars_of("slurm-%J.out")
        } else {
            chars_of("slurm-%A_%a.out")
        }
    } else {
        slice_of(path, 0, path.len())
    };
    assert(template@ == path_template(path@, ctx@.array_index));
    let expanded = expand_tokens_chars(template.as_slice(), ctx);
    join_path_chars(working_dir, expanded.as_slice())
}

} // verus!

verus! {

// ---------------------------------------------------------------------------
// Lines and jobs
// ---------------------------------------------------------------------------

/// The fields of one line: the trimmed line split on `|`, at most
/// [`FIELD_COUNT`] times.
pub open spec fn sacct_fields(line: Seq<char>) -> Seq<Seq<char>> {
    splitn_on(trim(line), FIELD_COUNT as nat, '|')
}

/// The identifier a line names: its `JobID`, or else its `JobIDRaw`.
pub open spec fn line_id(parts: Seq<Seq<char>>) -> Option<Seq<char>> {
    match nonempty(parts[0]) {
        Some(x) => Some(x),
        None => nonempty(parts[1]),
    }
}

/// The job that one `sacct` line describes, if it has all fields and an id.
pub open spec fn parse_sacct_line(line: Seq<char>) -> Option<JobModel> {
    let parts = sacct_fields(line);
    if parts.len() != FIELD_COUNT {
        None
    } else {
        match line_id(parts) {
            None => None,
            Some(id) => {
                let ids = split_job_id(id);
                let state = trim(parts[3]);
                let user = trim(parts[4]);
                let name = trim(parts[2]);
                let nodelist = or_empty(normalize_optional(parts[10]));
                let working_dir = or_empty(normalize_optional(parts[14]));
                let stdout = or_empty(normalize_optional(parts[11]));
                let stderr = or_empty(normalize_optional(parts[12]));
                let task = match ids.2 {
                    Some(step) => step,
                    None => "N/A"@,
                };
                let ctx = PathContextModel {
                    array_master: ids.1,
                    array_index: array_index_of(task),
                    id: id,
                    host: nodelist,
                    user: user,
                    name: name,
                };
                Some(
                    JobModel {
                        job_id: ids.0,
                        array_id: ids.1,
                        array_step: ids.2,
                        name: name,
                        state: state,
                        state_compact: compact_state(state),
                        reason: normalize_optional(parts[13]),
                        user: user,
                        time: trim(parts[5]),
                        time_limit: trim(parts[6]),
                        start_time: match normalize_optional(parts[7]) {
                            Some(s) => s,
                            None => "N/A"@,
                        },
                        tres: trim(parts[8]),
                        partition: trim(parts[9]),
                        nodelist: nodelist,
                        stdout: Some(resolve_path(stdout, ctx, working_dir)),
                        stderr: Some(resolve_path(stderr, ctx, working_dir)),
                        workdir: if working_dir.len() == 0 {
                            None
                        } else {
                            Some(working_dir)
                        },
                        command: trim(parts[15]),
                    },
                )
            },
        }
    }
}

fn copy_chars(v: &Vec<char>) -> (r: Vec<char>)
    ensures
        r@ == v@,
{
    slice_of(v.as_slice(), 0, v.len())
}

fn trimmed_string(v: &Vec<char>) -> (r: String)
    ensures
        r@ == trim(v@),
{
    let t = trim_chars(v.as_slice());
    string_of(t.as_slice())
}

fn opt_string(o: Option<Vec<char>>) -> (r: Option<String>)
    ensures
        match o {
            Some(v) => r matches Some(s) && s@ == v@,
            None => r is None,
        },
{
    match o {
        Some(v) => Some(string_of(v.as_slice())),
        None => None,
    }
}

/// Parses one line of `sacct --parsable2` output.
pub fn parse_sacct_job(line: &[char]) -> (r: Option<Job>)
    ensures
        match r {
            Some(j) => parse_sacct_line(line@) == Some(j@),
            None => parse_sacct_line(line@) is None,
        },
{
    let t = trim_chars(line);
    let parts = splitn_chars(t.as_slice(), FIELD_COUNT, '|');
    let ghost ps = sacct_fields(line@);
    assert(views(parts@) == ps);
    if parts.len() != FIELD_COUNT {
        return None;
    }
    proof {
        assert forall|k: int| 0 <= k < 16 implies #[trigger] parts@[k]@ == ps[k] by {
            assert(views(parts@)[k] == parts@[k]@);
        }
    }
    let id = match nonempty_chars(parts[0].as_slice()) {
        Some(x) => x,
        None => match nonempty_chars(parts[1].as_slice()) {
            Some(x) => x,
            None => {
                return None;
            },
        },
    };
    assert(line_id(ps) == Some(id@));
    let (job_id, array_id, array_step) = split_job_id_chars(id.as_slice());
    let state = trim_chars(parts[3].as_slice());
    let user = trim_chars(parts[4].as_slice());
    let name = trim_chars(parts[2].as_slice());
    let nodelist = or_empty_chars(normalize_optional_chars(parts[10].as_slice()));
    let working_dir = or_empty_chars(normalize_optional_chars(parts[14].as_slice()));
    let stdout_raw = or_empty_chars(normalize_optional_chars(parts[11].as_slice()));
    let stderr_raw = or_empty_chars(normalize_optional_chars(parts[12].as_slice()));
    let task = match &array_step {
        Some(step) => copy_chars(step),
        None => chars_of("N/A"),
    };
    let array_index = if chars_eq_str(task.as_slice(), "N/A") {
        chars_of("4294967294")
    } else {
        task
    };
    let ctx = PathContext {
        array_master: copy_chars(&array_id),
        array_index,
        id: copy_chars(&id),
        host: copy_chars(&nodelist),
        user: copy_chars(&user),
        name: copy_chars(&name),
    };
    let stdout = resolve_path_chars(stdout_raw.as_slice(), &ctx, working_dir.as_slice());
    let stderr = resolve_path_chars(stderr_raw.as_slice(), &ctx, working_dir.as_slice());
    let state_compact = compact_state_chars(state.as_slice());
    let reason = opt_string(normalize_optional_chars(parts[13].as_slice()));
    let start_time = match normalize_optional_chars(parts[7].as_slice()) {
        Some(s) => string_of(s.as_slice()),
        None => string_of(chars_of("N/A").as_slice()),
    };
    let workdir = if working_dir.len() == 0 {
        None
    } else {
        Some(string_of(working_dir.as_slice()))
    };
    let job = Job {
        job_id: string_of(job_id.as_slice()),
        array_id: string_of(array_id.as_slice()),
        array_step: opt_string(array_step),
        name: string_of(name.as_slice()),
        state: string_of(state.as_slice()),
        state_compact: string_of(state_compact.as_slice()),
        reason,
        user: string_of(user.as_slice()),
        time: trimmed_string(&parts[5]),
        time_limit: trimmed_string(&parts[6]),
        start_time,
        tres: trimmed_string(&parts[8]),
        partition: trimmed_string(&parts[9]),
        nodelist: string_of(nodelist.as_slice()),
        stdout: Some(string_of(stdout.as_slice())),
        stderr: Some(string_of(stderr.as_slice())),
        workdir,
        command: trimmed_string(&parts[15]),
    };
    assert(job@ =~= parse_sacct_line(line@)->0);
    Some(job)
}

/// The jobs that the given lines describe, in order, skipping lines that do
/// not describe one.
pub open spec fn parse_sacct_lines(ls: Seq<Seq<char>>) -> Seq<JobModel>
    decreases ls.len(),
{
    if ls.len() == 0 {
        Seq::<JobModel>::empty()
    } else {
        let prev = parse_sacct_lines(ls.drop_last());
        match parse_sacct_line(ls.last()) {
            Some(j) => prev.push(j),
            None => prev,
        }
    }
}

/// Parses the whole output of `sacct --parsable2`: one job per well-formed line.
pub fn parse_sacct_jobs(output: &str) -> (r: Vec<Job>)
    ensures
        job_views(r@) == parse_sacct_lines(lines(output@)),
{
    let text = chars_of(output);
    let ls = lines_chars(text.as_slice());
    let ghost lv = lines(output@);
    let mut jobs: Vec<Job> = Vec::new();
    let mut i: usize = 0;
    assert(lv.take(0) =~= Seq::<Seq<char>>::empty());
    while i < ls.len()
        invariant
            views(ls@) == lv,
            i <= ls.len(),
            job_views(jobs@) == parse_sacct_lines(lv.take(i as int)),
        decreases ls.len() - i,
    {
        assert(views(ls@)[i as int] == ls@[i as int]@);
        assert(lv.take(i + 1).drop_last() =~= lv.take(i as int));
        assert(lv.take(i + 1).last() == lv[i as int]);
        match parse_sacct_job(ls[i].as_slice()) {
            Some(j) => {
                jobs.push(j);
                assert(job_views(jobs@) =~= parse_sacct_lines(lv.take(i as int)).push(
                    jobs@.last()@,
                ));
            },
            None => {},
        }
        i = i + 1;
    }
    assert(lv.take(ls.len() as int) =~= lv);
    jobs
}

// ---------------------------------------------------------------------------
// Group scope
// ---------------------------------------------------------------------------

/// Whether a job stays in a group-wide listing seen by `user`: active jobs of
/// anyone, finished jobs of `user` only.
pub open spec fn keeps_in_group_view(j: JobModel, user: Seq<char>) -> bool {
    !is_historical(j.state) || j.user == user
}

/// The jobs that stay in a group-wide listing, in their order.
pub open spec fn group_jobs(js: Seq<JobModel>, user: Seq<char>) -> Seq<JobModel>
    decreases js.len(),
{
    if js.len() == 0 {
        Seq::<JobModel>::empty()
    } else {
        let prev = group_jobs(js.drop_last(), user);
        if keeps_in_group_view(js.last(), user) {
            prev.push(js.last())
        } else {
            prev
        }
    }
}

/// Keeps every active job and the finished jobs of `user`.
pub fn filter_group_jobs(jobs: Vec<Job>, user: &str) -> (r: Vec<Job>)
    ensures
        job_views(r@) == group_jobs(job_views(jobs@), user@),
{
    let user_chars = chars_of(user);
    let mut out: Vec<Job> = Vec::new();
    let mut rest = jobs;
    let ghost all = job_views(rest@);
    // Walk the jobs front to back by reversing them first.
    let mut rev: Vec<Job> = Vec::new();
    while rest.len() > 0
        invariant
            all == job_views(jobs@),
            job_views(rest@) + job_views(rev@).reverse() == all,
        decreases rest.len(),
    {
        let j = rest.pop().unwrap();
        rev.push(j);
        assert(job_views(rest@) + job_views(rev@).reverse() =~= all);
    }
    assert(job_views(rev@).reverse() =~= all);
    let n = rev.len();
    let mut i: usize = 0;
    assert(all.take(0) =~= Seq::<JobModel>::empty());
    while rev.len() > 0
        invariant
            n == all.len(),
            user_chars@ == user@,
            i + rev.len() == n,
            forall|k: int| 0 <= k < rev@.len() ==> #[trigger] rev@[k]@ == all[n - 1 - k],
            job_views(out@) == group_jobs(all.take(i as int), user_chars@),
        decreases rev.len(),
    {
        let j = rev.pop().unwrap();
        assert(j@ == all[i as int]);
        assert(all.take(i + 1).drop_last() =~= all.take(i as int));
        let keep = !is_historical_chars(chars_of(j.state.as_str()).as_slice()) || chars_eq_str(
            chars_of(j.user.as_str()).as_slice(),
            user,
        );
        if keep {
            out.push(j);
            assert(job_views(out@) =~= group_jobs(all.take(i as int), user_chars@).push(all[i as int]));
        }
        i = i + 1;
    }
    assert(all.take(n as int) =~= all);
    out
}

// ---------------------------------------------------------------------------
// The sacct command
// ---------------------------------------------------------------------------

/// The fields asked of `sacct`, in the order the parser reads them.
pub open spec fn sacct_format_arg() -> Seq<char> {
    "--format=JobID,JobIDRaw,JobName,State,User,Elapsed,Timelimit,Start,AllocTRES,Partition,NodeList,Stdout,Stderr,Reason,WorkDir,Command"@
}

/// The arguments `sacct` runs with: the watcher's own, then the allocations
/// of the last two days, in parsable form without header, with the fields
/// the parser reads.
pub open spec fn spec_sacct_command_args(args: Seq<Seq<char>>) -> Seq<Seq<char>> {
    args + seq![
        "--allocations"@,
        "--starttime=now-2days"@,
        "--endtime=now"@,
        "--noheader"@,
        "--parsable2"@,
        sacct_format_arg(),
    ]
}

pub fn sacct_command_args(args: &Vec<String>) -> (r: Vec<String>)
    ensures
        string_views(r@) == spec_sacct_command_args(string_views(args@)),
{
    let mut out: Vec<String> = Vec::new();
    let mut i: usize = 0;
    while i < args.len()
        invariant
            i <= args.len(),
            string_views(out@) == string_views(args@).take(i as int),
        decreases args.len() - i,
    {
        let a = args[i].clone();
        assert(a@ == args@[i as int]@);
        out.push(a);
        assert(string_views(out@) =~= string_views(args@).take(i as int).push(args@[i as int]@));
        assert(string_views(args@).take(i as int).push(args@[i as int]@) =~= string_views(args@).take(i + 1));
        i = i + 1;
    }
    assert(string_views(args@).take(args.len() as int) =~= string_views(args@));
    out.push(crate::text::owned("--allocations"));
    out.push(crate::text::owned("--starttime=now-2days"));
    out.push(crate::text::owned("--endtime=now"));
    out.push(crate::text::owned("--noheader"));
    out.push(crate::text::owned("--parsable2"));
    out.push(
        crate::text::owned(
            "--format=JobID,JobIDRaw,JobName,State,User,Elapsed,Timelimit,Start,AllocTRES,Partition,NodeList,Stdout,Stderr,Reason,WorkDir,Command",
        ),
    );
    assert(string_views(out@) =~= spec_sacct_command_args(string_views(args@)));
    out
}

/// The jobs a watcher reports from `sacct`'s output: every parsed job, but
/// where it lists all users, only the active jobs of others (when the user
/// is known).
pub open spec fn spec_watched_jobs(output: Seq<char>, args: Seq<Seq<char>>, user: Option<Seq<char>>) -> Seq<JobModel> {
    let jobs = parse_sacct_lines(lines(output));
    match user {
        Some(u) => if args.contains("--allusers"@) {
            group_jobs(jobs, u)
        } else {
            jobs
        },
        None => jobs,
    }
}

pub fn watched_jobs(output: &str, args: &Vec<String>, user: Option<String>) -> (r: Vec<Job>)
    ensures
        job_views(r@) == spec_watched_jobs(output@, string_views(args@), crate::job::opt_view(user)),
{
    let jobs = parse_sacct_jobs(output);
    let all_users = chars_of("--allusers");
    let mut listed = false;
    let mut i: usize = 0;
    while i < args.len()
        invariant
            i <= args.len(),
            all_users@ == "--allusers"@,
            listed == string_views(args@).take(i as int).contains("--allusers"@),
        decreases args.len() - i,
    {
        let a = chars_of(args[i].as_str());
        let same = chars_eq(a.as_slice(), all_users.as_slice());
        proof {
            let v = string_views(args@);
            assert(v.take(i + 1) =~= v.take(i as int).push(v[i as int]));
            if same {
                assert(v.take(i + 1)[i as int] == "--allusers"@);
            }
            let w = v.take(i + 1);
            if w.contains("--allusers"@) && !v.take(i as int).contains("--allusers"@) {
                let k = choose|k: int| 0 <= k < w.len() && #[trigger] w[k] == "--allusers"@;
                if k < i {
                    assert(v.take(i as int)[k] == "--allusers"@);
                }
            }
        }
        if same {
            listed = true;
        }
        i = i + 1;
    }
    assert(string_views(args@).take(args.len() as int) =~= string_views(args@));
    match user {
        Some(u) => if listed {
            filter_group_jobs(jobs, u.as_str())
        } else {
            jobs
        },
        None => jobs,
    }
}

} // verus!
