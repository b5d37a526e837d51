//! Text measurements for the panels: wrapping lines into chunks, counting and
//! measuring output lines, clipping, truncation, titles and TRES wrapping.
use vstd::prelude::*;

use crate::split::{lines, lines_chars, split_chars, split_on, views};
use vstd::arithmetic::div_mod::{lemma_fundamental_div_mod, lemma_mod_multiples_vanish};
use crate::text::{
    chars_of, concat_string, decimal, decimal_chars, extend_chars, slice_of, string_of,
};

verus! {

// ---------------------------------------------------------------------------
// Chunking a line for wrapped display
// ---------------------------------------------------------------------------

/// Whether a chunk starts at character `i`: at 0, at `first`, and every
/// `chunk` characters after `first` when `chunk > 0`.
pub open spec fn is_cut(i: int, first: int, chunk: int) -> bool {
    if i > first {
        chunk > 0 && (i - first) % chunk == 0
    } else {
        i == 0 || i == first
    }
}

/// The chunks of `s[start..]` from position `i` on, the current chunk having
/// started at `start`.
pub open spec fn chunks_from(s: Seq<char>, i: int, start: int, first: int, chunk: int) -> Seq<Seq<char>>
    decreases s.len() - i,
{
    if i >= s.len() {
        seq![s.subrange(start, s.len() as int)]
    } else if i > 0 && is_cut(i, first, chunk) {
        seq![s.subrange(start, i)] + chunks_from(s, i + 1, i, first, chunk)
    } else {
        chunks_from(s, i + 1, start, first, chunk)
    }
}

/// `s` cut into a first chunk of `first` characters and then chunks of
/// `chunk` characters (the rest in one piece when `chunk` is 0).
pub open spec fn chunked(s: Seq<char>, first: int, chunk: int) -> Seq<Seq<char>> {
    chunks_from(s, 0, 0, first, chunk)
}

proof fn lemma_chunks_from_nonempty(s: Seq<char>, i: int, start: int, first: int, chunk: int)
    ensures
        chunks_from(s, i, start, first, chunk).len() >= 1,
    decreases s.len() - i,
{
    if i < s.len() {
        lemma_chunks_from_nonempty(s, i + 1, if i > 0 && is_cut(i, first, chunk) { i } else { start }, first, chunk);
    }
}

/// The sizes of a text's chunks: each chunk but the last is as long as
/// asked (the first `first` long where the text is cut from its start and
/// `first` is not 0, the others `chunk` long); the last is no longer than
/// asked; with `chunk` 0 nothing is cut after the first chunk.
pub open spec fn chunk_sizes_fit(c: Seq<Seq<char>>, first: int, chunk: int, from_start: bool) -> bool {
    let lead = from_start && first > 0;
    &&& c.len() >= 1
    &&& forall|k: int|
        0 <= k < c.len() - 1 ==> (#[trigger] c[k]).len() == (if k == 0 && lead {
            first
        } else {
            chunk
        })
    &&& ((c.len() == 1 && lead) || chunk > 0) ==> c.last().len() <= (if c.len() == 1 && lead {
        first
    } else {
        chunk
    })
    &&& chunk == 0 ==> c.len() <= (if lead {
        2int
    } else {
        1int
    })
}

proof fn lemma_next_multiple(a: int, b: int, c: int)
    requires
        c > 0,
        a % c == 0,
        b % c == 0,
        a < b,
    ensures
        b >= a + c,
{
    lemma_fundamental_div_mod(a, c);
    lemma_fundamental_div_mod(b, c);
    let qa = a / c;
    let qb = b / c;
    assert(qa < qb) by (nonlinear_arith)
        requires
            c * qa < c * qb,
            c > 0,
    ;
    assert(c * qb >= c * qa + c) by (nonlinear_arith)
        requires
            qa + 1 <= qb,
            c > 0,
    ;
}

/// The cut after `start` (a cut, or the text's start): `first` where the
/// text is cut from its start and `first` is not 0, else `chunk` further on;
/// none where that would be 0 further on.
proof fn lemma_next_cut(start: int, first: int, chunk: int)
    requires
        first >= 0,
        chunk >= 0,
        start >= 0,
        start == 0 || is_cut(start, first, chunk),
    ensures
        start == 0 && first > 0 ==> is_cut(first, first, chunk),
        !(start == 0 && first > 0) && chunk > 0 ==> is_cut(start + chunk, first, chunk),
        forall|j: int|
            start < j && #[trigger] is_cut(j, first, chunk) ==> if start == 0 && first > 0 {
                j >= first
            } else {
                chunk > 0 && j >= start + chunk
            },
{
    if chunk > 0 {
        lemma_mod_multiples_vanish(1, start - first, chunk);
        lemma_mod_multiples_vanish(0, 0, chunk);
    }
    assert forall|j: int|
        start < j && #[trigger] is_cut(j, first, chunk) implies if start == 0 && first > 0 {
            j >= first
        } else {
            chunk > 0 && j >= start + chunk
        } by {
        if start == 0 && first > 0 {
        } else if start == 0 {
            lemma_next_multiple(0, j, chunk);
        } else if start <= first {
            lemma_next_multiple(0, j - first, chunk);
        } else {
            lemma_next_multiple(start - first, j - first, chunk);
        }
    }
}

/// The chunks from `i` on, the current chunk having started at the cut
/// `start` (or at the text's start), have the sizes asked for, and none is
/// empty unless the text is.
proof fn lemma_chunk_sizes(s: Seq<char>, i: int, start: int, first: int, chunk: int)
    requires
        first >= 0,
        chunk >= 0,
        0 <= start <= i <= s.len(),
        start < i || i == 0,
        start == 0 || is_cut(start, first, chunk),
        forall|j: int| start < j < i ==> !#[trigger] is_cut(j, first, chunk),
    ensures
        chunk_sizes_fit(chunks_from(s, i, start, first, chunk), first, chunk, start == 0),
        s.len() > 0 ==> forall|k: int|
            0 <= k < chunks_from(s, i, start, first, chunk).len() ==> (#[trigger] chunks_from(
                s,
                i,
                start,
                first,
                chunk,
            )[k]).len() > 0,
    decreases s.len() - i,
{
    lemma_next_cut(start, first, chunk);
    let lead = start == 0 && first > 0;
    let c = chunks_from(s, i, start, first, chunk);
    if i >= s.len() {
        if lead {
            if first < i {
                assert(!is_cut(first, first, chunk));
            }
        } else if chunk > 0 {
            if start + chunk < i {
                assert(!is_cut(start + chunk, first, chunk));
            }
        }
        assert(c[0] == s.subrange(start, s.len() as int));
    } else if i > 0 && is_cut(i, first, chunk) {
        let rest = chunks_from(s, i + 1, i, first, chunk);
        lemma_chunk_sizes(s, i + 1, i, first, chunk);
        if lead {
            if first < i {
                assert(!is_cut(first, first, chunk));
            }
        } else {
            if start + chunk < i {
                assert(!is_cut(start + chunk, first, chunk));
            }
        }
        assert(c == seq![s.subrange(start, i)] + rest);
        assert(c[0].len() == i - start);
        assert forall|k: int| 0 < k < c.len() implies #[trigger] c[k] == rest[k - 1] by {}
        assert(c.last() == rest.last());
    } else {
        lemma_chunk_sizes(s, i + 1, start, first, chunk);
    }
}

/// The chunks of a text have the sizes asked for, and none is empty unless
/// the text is.
pub proof fn lemma_chunked_sizes(s: Seq<char>, first: int, chunk: int)
    requires
        first >= 0,
        chunk >= 0,
    ensures
        chunk_sizes_fit(chunked(s, first, chunk), first, chunk, true),
        s.len() > 0 ==> forall|k: int|
            0 <= k < chunked(s, first, chunk).len() ==> (#[trigger] chunked(s, first, chunk)[k]).len() > 0,
{
    lemma_chunk_sizes(s, 0, 0, first, chunk);
}

fn cut_at(i: usize, first: usize, chunk: usize) -> (r: bool)
    ensures
        r == is_cut(i as int, first as int, chunk as int),
{
    if i > first {
        chunk > 0 && (i - first) % chunk == 0
    } else {
        i == 0 || i == first
    }
}

/// Cuts a line into display chunks.
pub fn chunked_chars(s: &[char], first: usize, chunk: usize) -> (r: Vec<Vec<char>>)
    ensures
        views(r@) == chunked(s@, first as int, chunk as int),
        r@.len() >= 1,
{
    let mut out: Vec<Vec<char>> = Vec::new();
    let mut start: usize = 0;
    let mut i: usize = 0;
    while i < s.len()
        invariant
            start <= i <= s.len(),
            views(out@) + chunks_from(s@, i as int, start as int, first as int, chunk as int)
                == chunked(s@, first as int, chunk as int),
        decreases s.len() - i,
    {
        if i > 0 && cut_at(i, first, chunk) {
            let piece = slice_of(s, start, i);
            let ghost before = views(out@);
            out.push(piece);
            assert(views(out@) =~= before.push(piece@));
            assert(views(out@) + chunks_from(s@, i + 1, i as int, first as int, chunk as int) =~= before
                + chunks_from(s@, i as int, start as int, first as int, chunk as int));
            start = i;
        }
        i = i + 1;
    }
    let piece = slice_of(s, start, s.len());
    let ghost before = views(out@);
    out.push(piece);
    assert(views(out@) =~= before + chunks_from(s@, i as int, start as int, first as int, chunk as int));
    proof {
        lemma_chunks_from_nonempty(s@, 0, 0, first as int, chunk as int);
    }
    out
}

// ---------------------------------------------------------------------------
// Output lines
// ---------------------------------------------------------------------------

pub open spec fn is_break(c: char) -> bool {
    c == '\r' || c == '\n'
}

/// The index of the last line break, if any.
pub open spec fn last_break(s: Seq<char>) -> Option<int>
    decreases s.len(),
{
    if s.len() == 0 {
        None
    } else if is_break(s.last()) {
        Some(s.len() - 1)
    } else {
        last_break(s.drop_last())
    }
}

/// The text up to its last line break; a text without one stays whole.
pub open spec fn complete_text(s: Seq<char>) -> Seq<char> {
    match last_break(s) {
        Some(i) => s.take(i),
        None => s,
    }
}

pub open spec fn flatten(ss: Seq<Seq<Seq<char>>>) -> Seq<Seq<char>>
    decreases ss.len(),
{
    if ss.len() == 0 {
        Seq::<Seq<char>>::empty()
    } else {
        flatten(ss.drop_last()) + ss.last()
    }
}

/// The display lines of output text: its complete lines, each also split at
/// carriage returns.
pub open spec fn display_lines(s: Seq<char>) -> Seq<Seq<char>> {
    flatten(lines(complete_text(s)).map_values(|l: Seq<char>| split_on(l, '\r')))
}

fn complete_text_chars(s: &[char]) -> (r: Vec<char>)
    ensures
        r@ == complete_text(s@),
{
    let mut j: usize = s.len();
    assert(s@.take(s.len() as int) =~= s@);
    while j > 0 && !(s[j - 1] == '\r' || s[j - 1] == '\n')
        invariant
            j <= s.len(),
            last_break(s@) == last_break(s@.take(j as int)),
        decreases j,
    {
        assert(s@.take(j as int).drop_last() =~= s@.take(j - 1));
        j = j - 1;
    }
    assert(s@.take(s.len() as int) =~= s@) by {
    }
    if j == 0 {
        assert(s@.take(0) =~= Seq::<char>::empty());
        slice_of(s, 0, s.len())
    } else {
        assert(s@.take(j as int).last() == s@[j - 1]);
        slice_of(s, 0, j - 1)
    }
}

proof fn lemma_last_break_take(s: Seq<char>)
    ensures
        last_break(s) == last_break(s.take(s.len() as int)),
{
    assert(s.take(s.len() as int) =~= s);
}

/// The display lines of output text.
pub fn display_lines_chars(s: &[char]) -> (r: Vec<Vec<char>>)
    ensures
        views(r@) == display_lines(s@),
{
    proof {
        lemma_last_break_take(s@);
    }
    let text = complete_text_chars(s);
    let ls = lines_chars(text.as_slice());
    let ghost lv = lines(complete_text(s@));
    let ghost parts = lv.map_values(|l: Seq<char>| split_on(l, '\r'));
    let mut out: Vec<Vec<char>> = Vec::new();
    let mut i: usize = 0;
    assert(parts.take(0) =~= Seq::<Seq<Seq<char>>>::empty());
    while i < ls.len()
        invariant
            views(ls@) == lv,
            parts == lv.map_values(|l: Seq<char>| split_on(l, '\r')),
            i <= ls.len(),
            views(out@) == flatten(parts.take(i as int)),
        decreases ls.len() - i,
    {
        assert(views(ls@)[i as int] == ls@[i as int]@);
        let pieces = split_chars(ls[i].as_slice(), '\r');
        let mut k: usize = 0;
        let ghost base = views(out@);
        while k < pieces.len()
            invariant
                k <= pieces.len(),
                views(out@) == base + views(pieces@).take(k as int),
            decreases pieces.len() - k,
        {
            assert(views(pieces@)[k as int] == pieces@[k as int]@);
            let p = slice_of(pieces[k].as_slice(), 0, pieces[k].len());
            assert(pieces@[k as int]@.subrange(0, pieces@[k as int]@.len() as int) =~= pieces@[k as int]@);
            let ghost prev = views(out@);
            out.push(p);
            assert(views(out@) =~= prev.push(p@));
            assert(views(pieces@).take(k + 1) =~= views(pieces@).take(k as int).push(pieces@[k as int]@));
            assert(views(out@) =~= base + views(pieces@).take(k + 1));
            k = k + 1;
        }
        assert(views(pieces@).take(pieces.len() as int) =~= views(pieces@));
        assert(parts.take(i + 1).drop_last() =~= parts.take(i as int));
        assert(parts.take(i + 1).last() == parts[i as int]);
        i = i + 1;
    }
    assert(parts.take(ls.len() as int) =~= parts);
    out
}

/// Rows that one display line takes: its chunks when wrapping, else one.
pub open spec fn rows_of_line(l: Seq<char>, cols: int, wrap: bool) -> int {
    if wrap {
        let n = chunked(l, cols, if cols >= 2 { cols - 2 } else { 0 }).len() as int;
        if n > 1 {
            n
        } else {
            1
        }
    } else {
        1
    }
}

pub open spec fn rows_sum(ls: Seq<Seq<char>>, cols: int, wrap: bool) -> int
    decreases ls.len(),
{
    if ls.len() == 0 {
        0
    } else {
        rows_sum(ls.drop_last(), cols, wrap) + rows_of_line(ls.last(), cols, wrap)
    }
}

/// Rows that output text takes at a width of `cols`.
pub open spec fn output_line_count(s: Seq<char>, cols: int, wrap: bool) -> int {
    rows_sum(display_lines(s), cols, wrap)
}

proof fn lemma_rows_sum_bound(ls: Seq<Seq<char>>, cols: int, wrap: bool)
    ensures
        0 <= rows_sum(ls, cols, wrap),
        rows_sum(ls, cols, wrap) <= ls.len() * (if wrap { max_len(ls) + 2 } else { 1 }),
    decreases ls.len(),
{
    if ls.len() > 0 {
        lemma_rows_sum_bound(ls.drop_last(), cols, wrap);
        lemma_max_len_ge(ls);
        lemma_max_len_mono(ls);
        if wrap {
            lemma_chunk_count_bound(ls.last(), cols);
            let m = max_len(ls);
            let k = ls.len() - 1;
            assert(rows_sum(ls.drop_last(), cols, wrap) <= k * (m + 2)) by (nonlinear_arith)
                requires
                    rows_sum(ls.drop_last(), cols, wrap) <= k * (max_len(ls.drop_last()) + 2),
                    max_len(ls.drop_last()) <= m,
                    k >= 0,
            ;
            assert(k * (m + 2) + (m + 2) == ls.len() * (m + 2)) by (nonlinear_arith)
                requires
                    k == ls.len() - 1,
            ;
        }
    }
}

/// The length of the longest sequence, 0 for none.
pub open spec fn max_len(ls: Seq<Seq<char>>) -> int
    decreases ls.len(),
{
    if ls.len() == 0 {
        0
    } else {
        let m = max_len(ls.drop_last());
        if ls.last().len() > m {
            ls.last().len() as int
        } else {
            m
        }
    }
}

proof fn lemma_max_len_ge(ls: Seq<Seq<char>>)
    ensures
        max_len(ls) >= 0,
        ls.len() > 0 ==> max_len(ls) >= ls.last().len(),
    decreases ls.len(),
{
    if ls.len() > 0 {
        lemma_max_len_ge(ls.drop_last());
    }
}

proof fn lemma_max_len_mono(ls: Seq<Seq<char>>)
    ensures
        ls.len() > 0 ==> max_len(ls.drop_last()) <= max_len(ls),
{
}

proof fn lemma_chunks_from_len(s: Seq<char>, i: int, start: int, first: int, chunk: int)
    requires
        0 <= i,
    ensures
        chunks_from(s, i, start, first, chunk).len() <= 1 + (if s.len() > i { s.len() - i } else { 0 }),
    decreases s.len() - i,
{
    if i < s.len() {
        lemma_chunks_from_len(s, i + 1, if i > 0 && is_cut(i, first, chunk) { i } else { start }, first, chunk);
    }
}

proof fn lemma_chunk_count_bound(l: Seq<char>, cols: int)
    ensures
        rows_of_line(l, cols, true) <= l.len() + 2,
        rows_of_line(l, cols, true) >= 1,
{
    lemma_chunks_from_len(l, 0, 0, cols, if cols >= 2 { cols - 2 } else { 0 });
}

/// Rows take at most two more than each line's length when wrapping, and
/// one per line otherwise.
proof fn lemma_rows_sum_weight(ls: Seq<Seq<char>>, cols: int, wrap: bool)
    ensures
        0 <= rows_sum(ls, cols, wrap) <= lines_weight(ls) + ls.len(),
    decreases ls.len(),
{
    if ls.len() > 0 {
        lemma_rows_sum_weight(ls.drop_last(), cols, wrap);
        lemma_chunk_count_bound(ls.last(), cols);
    }
}

proof fn lemma_display_weight(s: Seq<char>)
    ensures
        lines_weight(display_lines(s)) <= s.len() + 1,
{
    lemma_last_break_range(s);
    let c = complete_text(s);
    assert(c.len() <= s.len());
    lemma_lines_bounds(c);
    lemma_flatten_weight(lines(c));
}

/// Rows that output text takes at a width of `cols`, wrapped or not.
pub fn job_output_line_count(s: &[char], cols: usize, wrap: bool) -> (r: usize)
    requires
        2 * s.len() + 2 <= usize::MAX,
    ensures
        r == output_line_count(s@, cols as int, wrap),
{
    let ls = display_lines_chars(s);
    proof {
        lemma_display_lines_bounds(s@);
        lemma_display_weight(s@);
        lemma_rows_sum_weight(display_lines(s@), cols as int, wrap);
    }
    let ghost lv = display_lines(s@);
    let mut total: usize = 0;
    let mut i: usize = 0;
    assert(lv.take(0) =~= Seq::<Seq<char>>::empty());
    while i < ls.len()
        invariant
            views(ls@) == lv,
            lv == display_lines(s@),
            i <= ls.len(),
            total == rows_sum(lv.take(i as int), cols as int, wrap),
            rows_sum(lv, cols as int, wrap) <= usize::MAX,
        decreases ls.len() - i,
    {
        assert(views(ls@)[i as int] == ls@[i as int]@);
        assert(lv.take(i + 1).drop_last() =~= lv.take(i as int));
        assert(lv.take(i + 1).last() == lv[i as int]);
        let n: usize = if wrap {
            let chunk = if cols >= 2 {
                cols - 2
            } else {
                0
            };
            let c = chunked_chars(ls[i].as_slice(), cols, chunk).len();
            if c > 1 {
                c
            } else {
                1
            }
        } else {
            1
        };
        proof {
            lemma_rows_sum_prefix(lv, i + 1, cols as int, wrap);
        }
        total = total + n;
        i = i + 1;
    }
    assert(lv.take(ls.len() as int) =~= lv);
    total
}

proof fn lemma_rows_sum_prefix(ls: Seq<Seq<char>>, i: int, cols: int, wrap: bool)
    requires
        0 <= i <= ls.len(),
    ensures
        rows_sum(ls.take(i), cols, wrap) <= rows_sum(ls, cols, wrap),
    decreases ls.len() - i,
{
    if i < ls.len() {
        lemma_rows_sum_prefix(ls, i + 1, cols, wrap);
        assert(ls.take(i + 1).drop_last() =~= ls.take(i));
        if wrap {
            lemma_chunk_count_bound(ls[i], cols);
        }
    } else {
        assert(ls.take(i) =~= ls);
    }
}

proof fn lemma_last_break_range(s: Seq<char>)
    ensures
        last_break(s) matches Some(i) ==> 0 <= i < s.len(),
    decreases s.len(),
{
    if s.len() > 0 && !is_break(s.last()) {
        lemma_last_break_range(s.drop_last());
    }
}

proof fn lemma_display_lines_bounds(s: Seq<char>)
    ensures
        display_lines(s).len() <= s.len() + 1,
        max_len(display_lines(s)) <= s.len(),
{
    lemma_last_break_range(s);
    let c = complete_text(s);
    assert(c.len() <= s.len());
    lemma_lines_bounds(c);
    lemma_flatten_split_bounds(lines(c), c.len() as int);
    lemma_weight_nonneg(flatten(lines(c).map_values(|l: Seq<char>| split_on(l, '\r'))));
}

/// Lines are at most as long as the text, and there are at most `len`
/// of them plus the total length they hold.
proof fn lemma_lines_bounds(c: Seq<char>)
    ensures
        lines_weight(lines(c)) <= c.len() + 1,
        forall|i: int| 0 <= i < lines(c).len() ==> (#[trigger] lines(c)[i]).len() <= c.len(),
{
    lemma_split_weight(c, '\n');
    let p = split_on(c, '\n');
    if c.len() > 0 {
        let q = if c.last() == '\n' {
            p.drop_last()
        } else {
            p
        };
        lemma_weight_prefix(p, q.len() as int);
        assert(p.take(q.len() as int) =~= q);
        lemma_weight_strip(q);
        assert forall|i: int| 0 <= i < lines(c).len() implies (#[trigger] lines(c)[i]).len() <= c.len() by {
            assert(lines(c)[i].len() <= q[i].len());
            assert(q[i] == p[i]);
            lemma_weight_elem(p, i);
        }
    }
}

/// `len + 1` summed over the pieces, minus one: the room a list of pieces
/// separated by one character takes.
pub open spec fn lines_weight(ls: Seq<Seq<char>>) -> int
    decreases ls.len(),
{
    if ls.len() == 0 {
        0
    } else {
        lines_weight(ls.drop_last()) + ls.last().len() + 1
    }
}

proof fn lemma_weight_elem(ls: Seq<Seq<char>>, i: int)
    requires
        0 <= i < ls.len(),
    ensures
        ls[i].len() + 1 <= lines_weight(ls),
    decreases ls.len(),
{
    if i < ls.len() - 1 {
        lemma_weight_elem(ls.drop_last(), i);
    } else {
        lemma_weight_nonneg(ls.drop_last());
    }
}

proof fn lemma_weight_nonneg(ls: Seq<Seq<char>>)
    ensures
        lines_weight(ls) >= ls.len(),
    decreases ls.len(),
{
    if ls.len() > 0 {
        lemma_weight_nonneg(ls.drop_last());
    }
}

proof fn lemma_weight_prefix(ls: Seq<Seq<char>>, k: int)
    requires
        0 <= k <= ls.len(),
    ensures
        lines_weight(ls.take(k)) <= lines_weight(ls),
    decreases ls.len() - k,
{
    if k < ls.len() {
        lemma_weight_prefix(ls, k + 1);
        assert(ls.take(k + 1).drop_last() =~= ls.take(k));
    } else {
        assert(ls.take(k) =~= ls);
    }
}

proof fn lemma_weight_strip(q: Seq<Seq<char>>)
    ensures
        lines_weight(q.map_values(|l: Seq<char>| crate::split::strip_cr(l))) <= lines_weight(q),
    decreases q.len(),
{
    if q.len() > 0 {
        lemma_weight_strip(q.drop_last());
        assert(q.map_values(|l: Seq<char>| crate::split::strip_cr(l)).drop_last() =~= q.drop_last().map_values(
            |l: Seq<char>| crate::split::strip_cr(l),
        ));
    }
}

proof fn lemma_split_weight(c: Seq<char>, d: char)
    ensures
        lines_weight(split_on(c, d)) == c.len() + 1,
        split_on(c, d).len() >= 1,
    decreases c.len(),
{
    if c.len() > 0 {
        lemma_split_weight(c.drop_last(), d);
        let r = split_on(c.drop_last(), d);
        assert(lines_weight(r) == lines_weight(r.drop_last()) + r.last().len() + 1);
        if c.last() != d {
            let u = r.update(r.len() - 1, r.last().push(c.last()));
            assert(u.drop_last() =~= r.drop_last());
            assert(u.last() == r.last().push(c.last()));
            assert(lines_weight(u) == lines_weight(u.drop_last()) + u.last().len() + 1);
            assert(split_on(c, d) == u);
        } else {
            assert(split_on(c, d) == r.push(Seq::<char>::empty()));
            assert(r.push(Seq::<char>::empty()).drop_last() =~= r);
        }
    } else {
        let e = seq![Seq::<char>::empty()];
        assert(e.drop_last() =~= Seq::<Seq<char>>::empty());
        assert(lines_weight(e.drop_last()) == 0);
        assert(e.last().len() == 0);
        assert(lines_weight(e) == lines_weight(e.drop_last()) + e.last().len() + 1);
        assert(split_on(c, d) == e);
    }
}

proof fn lemma_flatten_split_bounds(ls: Seq<Seq<char>>, n: int)
    requires
        n >= 0,
        lines_weight(ls) <= n + 1,
        forall|i: int| 0 <= i < ls.len() ==> (#[trigger] ls[i]).len() <= n,
    ensures
        flatten(ls.map_values(|l: Seq<char>| split_on(l, '\r'))).len() <= n + 1,
        max_len(flatten(ls.map_values(|l: Seq<char>| split_on(l, '\r')))) <= n,
    decreases ls.len(),
{
    lemma_flatten_weight(ls);
    lemma_weight_nonneg(flatten(ls.map_values(|l: Seq<char>| split_on(l, '\r'))));
    lemma_flatten_max(ls, n);
}

proof fn lemma_flatten_weight(ls: Seq<Seq<char>>)
    ensures
        lines_weight(flatten(ls.map_values(|l: Seq<char>| split_on(l, '\r')))) == lines_weight(ls),
    decreases ls.len(),
{
    if ls.len() > 0 {
        lemma_flatten_weight(ls.drop_last());
        let m = ls.map_values(|l: Seq<char>| split_on(l, '\r'));
        assert(m.drop_last() =~= ls.drop_last().map_values(|l: Seq<char>| split_on(l, '\r')));
        lemma_split_weight(ls.last(), '\r');
        lemma_weight_concat(flatten(m.drop_last()), m.last());
    }
}

proof fn lemma_weight_concat(a: Seq<Seq<char>>, b: Seq<Seq<char>>)
    ensures
        lines_weight(a + b) == lines_weight(a) + lines_weight(b),
    decreases b.len(),
{
    if b.len() > 0 {
        lemma_weight_concat(a, b.drop_last());
        assert((a + b).drop_last() =~= a + b.drop_last());
    } else {
        assert(a + b =~= a);
    }
}

proof fn lemma_flatten_max(ls: Seq<Seq<char>>, n: int)
    requires
        forall|i: int| 0 <= i < ls.len() ==> (#[trigger] ls[i]).len() <= n,
        n >= 0,
    ensures
        max_len(flatten(ls.map_values(|l: Seq<char>| split_on(l, '\r')))) <= n,
    decreases ls.len(),
{
    if ls.len() > 0 {
        let m = ls.map_values(|l: Seq<char>| split_on(l, '\r'));
        assert(m.drop_last() =~= ls.drop_last().map_values(|l: Seq<char>| split_on(l, '\r')));
        assert forall|i: int| 0 <= i < ls.drop_last().len() implies (#[trigger] ls.drop_last()[i]).len() <= n by {
            assert(ls.drop_last()[i] == ls[i]);
        }
        lemma_flatten_max(ls.drop_last(), n);
        lemma_split_weight(ls.last(), '\r');
        assert forall|j: int| 0 <= j < m.last().len() implies (#[trigger] m.last()[j]).len() <= n by {
            lemma_weight_elem(m.last(), j);
            assert(ls[ls.len() - 1] == ls.last());
        }
        lemma_max_concat(flatten(m.drop_last()), m.last(), n);
    }
}

proof fn lemma_max_concat(a: Seq<Seq<char>>, b: Seq<Seq<char>>, n: int)
    requires
        max_len(a) <= n,
        forall|j: int| 0 <= j < b.len() ==> (#[trigger] b[j]).len() <= n,
    ensures
        max_len(a + b) <= n,
    decreases b.len(),
{
    if b.len() > 0 {
        assert((a + b).drop_last() =~= a + b.drop_last());
        assert forall|j: int| 0 <= j < b.drop_last().len() implies (#[trigger] b.drop_last()[j]).len() <= n by {
            assert(b.drop_last()[j] == b[j]);
        }
        lemma_max_concat(a, b.drop_last(), n);
        assert((a + b).last() == b[b.len() - 1]);
    } else {
        assert(a + b =~= a);
    }
}

/// The length of the longest display line, 0 without any.
pub fn max_line_chars(s: &[char]) -> (r: usize)
    ensures
        r == max_len(display_lines(s@)),
{
    let ls = display_lines_chars(s);
    let ghost lv = display_lines(s@);
    let mut m: usize = 0;
    let mut i: usize = 0;
    assert(lv.take(0) =~= Seq::<Seq<char>>::empty());
    while i < ls.len()
        invariant
            views(ls@) == lv,
            i <= ls.len(),
            m == max_len(lv.take(i as int)),
        decreases ls.len() - i,
    {
        assert(views(ls@)[i as int] == ls@[i as int]@);
        assert(lv.take(i + 1).drop_last() =~= lv.take(i as int));
        assert(lv.take(i + 1).last() == lv[i as int]);
        if ls[i].len() > m {
            m = ls[i].len();
        }
        i = i + 1;
    }
    assert(lv.take(ls.len() as int) =~= lv);
    m
}

// ---------------------------------------------------------------------------
// Clipping and truncation
// ---------------------------------------------------------------------------

/// At most `width` characters of `value`, starting at `scroll_x`.
pub open spec fn clipped(value: Seq<char>, scroll_x: int, width: int) -> Seq<char> {
    let from = if scroll_x < value.len() {
        scroll_x
    } else {
        value.len() as int
    };
    let to = if from + width < value.len() {
        from + width
    } else {
        value.len() as int
    };
    value.subrange(from, to)
}

pub fn clip_line(value: &[char], scroll_x: usize, width: usize) -> (r: Vec<char>)
    ensures
        r@ == clipped(value@, scroll_x as int, width as int),
{
    let from = if scroll_x < value.len() {
        scroll_x
    } else {
        value.len()
    };
    let to = if width < value.len() - from {
        from + width
    } else {
        value.len()
    };
    slice_of(value, from, to)
}

/// `value` cut to `max_chars` characters, the last of which becomes `…`.
pub open spec fn truncated(value: Seq<char>, max_chars: int) -> Seq<char> {
    if value.len() <= max_chars {
        value
    } else if max_chars == 0 {
        Seq::<char>::empty()
    } else if max_chars == 1 {
        seq!['…']
    } else {
        value.take(max_chars - 1).push('…')
    }
}

pub fn truncate_with_ellipsis(value: &[char], max_chars: usize) -> (r: Vec<char>)
    ensures
        r@ == truncated(value@, max_chars as int),
{
    if value.len() <= max_chars {
        slice_of(value, 0, value.len())
    } else if max_chars == 0 {
        Vec::new()
    } else if max_chars == 1 {
        let mut v = Vec::new();
        v.push('…');
        assert(v@ =~= seq!['…']);
        v
    } else {
        let mut v = slice_of(value, 0, max_chars - 1);
        v.push('…');
        assert(v@ =~= value@.take(max_chars - 1).push('…'));
        v
    }
}

/// The job list's title: visible and total counts, and the filter if any.
pub open spec fn jobs_title_text(visible: nat, total: nat, filter: Seq<char>) -> Seq<char> {
    if filter.len() == 0 {
        " Jobs ("@ + decimal(visible) + (if total == visible {
            Seq::<char>::empty()
        } else {
            seq!['/'] + decimal(total)
        }) + ") "@
    } else {
        " Jobs ("@ + decimal(visible) + seq!['/'] + decimal(total) + ") filter: "@ + filter + seq![' ']
    }
}

/// The job list's title, cut to fit inside the panel's border.
pub fn jobs_title(width: u16, visible_count: usize, total_count: usize, active_filter: &[char]) -> (r: Vec<char>)
    ensures
        r@ == truncated(
            jobs_title_text(visible_count as nat, total_count as nat, active_filter@),
            if width >= 2 { width - 2 } else { 0 },
        ),
{
    let mut base = chars_of(" Jobs (");
    let v = decimal_chars(visible_count as u64);
    extend_chars(&mut base, v.as_slice());
    if active_filter.len() == 0 {
        if total_count != visible_count {
            base.push('/');
            let t = decimal_chars(total_count as u64);
            extend_chars(&mut base, t.as_slice());
        }
        let tail = chars_of(") ");
        extend_chars(&mut base, tail.as_slice());
    } else {
        base.push('/');
        let t = decimal_chars(total_count as u64);
        extend_chars(&mut base, t.as_slice());
        let mid = chars_of(") filter: ");
        extend_chars(&mut base, mid.as_slice());
        extend_chars(&mut base, active_filter);
        base.push(' ');
    }
    assert(base@ =~= jobs_title_text(visible_count as nat, total_count as nat, active_filter@));
    let max: usize = if width >= 2 {
        (width - 2) as usize
    } else {
        0
    };
    truncate_with_ellipsis(base.as_slice(), max)
}

// ---------------------------------------------------------------------------
// TRES lists
// ---------------------------------------------------------------------------

/// Lines filled with the comma-separated items so far, and the line being
/// filled; an item goes on a new line when it would not fit within `width`.
pub open spec fn tres_fill(items: Seq<Seq<char>>, width: int) -> (Seq<Seq<char>>, Seq<char>)
    decreases items.len(),
{
    if items.len() == 0 {
        (Seq::<Seq<char>>::empty(), Seq::<char>::empty())
    } else {
        let (done, line) = tres_fill(items.drop_last(), width);
        let item = items.last();
        if item.len() == 0 {
            (done, line)
        } else {
            let fits = line.len() == 0 || line.len() + 1 + item.len() <= width;
            let (done2, line2) = if fits {
                (done, line)
            } else {
                (done.push(line), Seq::<char>::empty())
            };
            let line3 = if line2.len() == 0 {
                item
            } else {
                line2.push(',') + item
            };
            (done2, line3)
        }
    }
}

/// A TRES list wrapped to `width` without splitting a `key=value` item.
pub open spec fn tres_lines(value: Seq<char>, width: int) -> Seq<Seq<char>> {
    let (done, line) = tres_fill(split_on(value, ','), width);
    if line.len() == 0 {
        done
    } else {
        done.push(line)
    }
}

pub fn tres_chunks_chars(value: &[char], width: usize) -> (r: Vec<Vec<char>>)
    ensures
        views(r@) == tres_lines(value@, width as int),
{
    let items = split_chars(value, ',');
    let ghost iv = split_on(value@, ',');
    let mut chunks: Vec<Vec<char>> = Vec::new();
    let mut line: Vec<char> = Vec::new();
    let mut i: usize = 0;
    assert(iv.take(0) =~= Seq::<Seq<char>>::empty());
    while i < items.len()
        invariant
            views(items@) == iv,
            i <= items.len(),
            (views(chunks@), line@) == tres_fill(iv.take(i as int), width as int),
        decreases items.len() - i,
    {
        assert(views(items@)[i as int] == items@[i as int]@);
        assert(iv.take(i + 1).drop_last() =~= iv.take(i as int));
        assert(iv.take(i + 1).last() == iv[i as int]);
        let item = &items[i];
        if item.len() > 0 {
            let fits = line.len() == 0 || (line.len() as u128) + 1 + (item.len() as u128) <= (width as u128);
            if !fits {
                let ghost before = views(chunks@);
                let full = slice_of(line.as_slice(), 0, line.len());
                assert(line@.subrange(0, line@.len() as int) =~= line@);
                chunks.push(full);
                assert(views(chunks@) =~= before.push(line@));
                line = Vec::new();
            }
            if line.len() > 0 {
                line.push(',');
            }
            extend_chars(&mut line, item.as_slice());
            assert(line@ =~= (if tres_fill(iv.take(i + 1), width as int).1.len() == 0 { item@ } else { tres_fill(iv.take(i + 1), width as int).1 }));
        }
        i = i + 1;
    }
    assert(iv.take(items.len() as int) =~= iv);
    if line.len() > 0 {
        let ghost before = views(chunks@);
        chunks.push(line);
        assert(views(chunks@) =~= before.push(chunks@.last()@));
    }
    chunks
}

/// The texts of a list of character vectors.
fn strings_of(v: Vec<Vec<char>>) -> (r: Vec<String>)
    ensures
        crate::text::string_views(r@) == views(v@),
{
    let mut out: Vec<String> = Vec::new();
    let mut i: usize = 0;
    while i < v.len()
        invariant
            i <= v.len(),
            crate::text::string_views(out@) == views(v@).take(i as int),
        decreases v.len() - i,
    {
        let t = string_of(v[i].as_slice());
        out.push(t);
        assert(views(v@)[i as int] == v@[i as int]@);
        assert(crate::text::string_views(out@) =~= views(v@).take(i as int).push(v@[i as int]@));
        assert(views(v@).take(i as int).push(v@[i as int]@) =~= views(v@).take(i + 1));
        i = i + 1;
    }
    assert(views(v@).take(v.len() as int) =~= views(v@));
    out
}

/// A text cut into a first piece of `first` characters and then pieces of
/// `chunk` characters.
pub fn chunked_string(s: &str, first: usize, chunk: usize) -> (r: Vec<String>)
    ensures
        crate::text::string_views(r@) == chunked(s@, first as int, chunk as int),
        chunk_sizes_fit(crate::text::string_views(r@), first as int, chunk as int, true),
        s@.len() > 0 ==> forall|k: int| 0 <= k < r@.len() ==> (#[trigger] r@[k])@.len() > 0,
{
    proof {
        lemma_chunked_sizes(s@, first as int, chunk as int);
    }
    let c = chars_of(s);
    let r = strings_of(chunked_chars(c.as_slice(), first, chunk));
    assert forall|k: int| 0 <= k < r@.len() implies (#[trigger] r@[k])@ == crate::text::string_views(r@)[k] by {}
    r
}

/// A TRES list wrapped at `width` without splitting a `key=value` pair.
pub fn tres_chunks(value: &str, width: usize) -> (r: Vec<String>)
    ensures
        crate::text::string_views(r@) == tres_lines(value@, width as int),
{
    let c = chars_of(value);
    strings_of(tres_chunks_chars(c.as_slice(), width))
}

} // verus!
