//! Splitting character sequences: on a delimiter, at most `n` times, into
//! whitespace-separated words and into lines; and decimal number parsing.
use vstd::prelude::*;

use crate::text::{is_ws, is_whitespace, slice_of};

verus! {

// ---------------------------------------------------------------------------
// Splitting on a delimiter
// ---------------------------------------------------------------------------

/// `str::split(d)`: the pieces of `s` between occurrences of `d`.
pub open spec fn split_on(s: Seq<char>, d: char) -> Seq<Seq<char>>
    decreases s.len(),
{
    if s.len() == 0 {
        seq![Seq::<char>::empty()]
    } else {
        let r = split_on(s.drop_last(), d);
        if s.last() == d {
            r.push(Seq::<char>::empty())
        } else {
            r.update(r.len() - 1, r.last().push(s.last()))
        }
    }
}

/// `str::splitn(n, d)` for `n >= 1`: like `split_on`, but once there are `n`
/// pieces, the last one keeps the rest, delimiters included.
pub open spec fn splitn_on(s: Seq<char>, n: nat, d: char) -> Seq<Seq<char>>
    decreases s.len(),
{
    if s.len() == 0 {
        seq![Seq::<char>::empty()]
    } else {
        let r = splitn_on(s.drop_last(), n, d);
        if s.last() == d && r.len() < n {
            r.push(Seq::<char>::empty())
        } else {
            r.update(r.len() - 1, r.last().push(s.last()))
        }
    }
}

proof fn lemma_split_on_nonempty(s: Seq<char>, d: char)
    ensures
        split_on(s, d).len() >= 1,
    decreases s.len(),
{
    if s.len() > 0 {
        lemma_split_on_nonempty(s.drop_last(), d);
    }
}

proof fn lemma_splitn_on_bounds(s: Seq<char>, n: nat, d: char)
    requires
        n >= 1,
    ensures
        1 <= splitn_on(s, n, d).len() <= n,
    decreases s.len(),
{
    if s.len() > 0 {
        lemma_splitn_on_bounds(s.drop_last(), n, d);
    }
}

fn flush_piece(parts: &mut Vec<Vec<char>>, cur: Vec<char>)
    ensures
        final(parts)@.len() == old(parts)@.len() + 1,
        forall|k: int| 0 <= k < old(parts)@.len() ==> final(parts)@[k]@ == old(parts)@[k]@,
        final(parts)@[old(parts)@.len() as int]@ == cur@,
{
    parts.push(cur);
}

/// The views of a vector of character vectors.
pub open spec fn views(v: Seq<Vec<char>>) -> Seq<Seq<char>> {
    v.map_values(|x: Vec<char>| x@)
}

/// The pieces of `s` between occurrences of `d`.
pub fn split_chars(s: &[char], d: char) -> (r: Vec<Vec<char>>)
    ensures
        views(r@) == split_on(s@, d),
{
    let mut parts: Vec<Vec<char>> = Vec::new();
    let mut cur: Vec<char> = Vec::new();
    let mut i: usize = 0;
    assert(s@.take(0) =~= Seq::<char>::empty());
    while i < s.len()
        invariant
            i <= s.len(),
            views(parts@).push(cur@) == split_on(s@.take(i as int), d),
        decreases s.len() - i,
    {
        let c = s[i];
        let ghost prev = s@.take(i as int);
        assert(s@.take(i + 1).drop_last() =~= prev);
        if c == d {
            flush_piece(&mut parts, cur);
            cur = Vec::new();
            assert(views(parts@).push(cur@) =~= split_on(prev, d).push(Seq::<char>::empty()));
        } else {
            cur.push(c);
            assert(views(parts@).push(cur@) =~= split_on(prev, d).update(
                split_on(prev, d).len() - 1,
                split_on(prev, d).last().push(c),
            ));
        }
        i = i + 1;
    }
    assert(s@.take(s.len() as int) =~= s@);
    flush_piece(&mut parts, cur);
    assert(views(parts@) =~= split_on(s@, d));
    parts
}

/// At most `n` pieces of `s` between occurrences of `d`; the last keeps the rest.
pub fn splitn_chars(s: &[char], n: usize, d: char) -> (r: Vec<Vec<char>>)
    requires
        n >= 1,
    ensures
        views(r@) == splitn_on(s@, n as nat, d),
{
    let mut parts: Vec<Vec<char>> = Vec::new();
    let mut cur: Vec<char> = Vec::new();
    let mut i: usize = 0;
    assert(s@.take(0) =~= Seq::<char>::empty());
    while i < s.len()
        invariant
            n >= 1,
            i <= s.len(),
            views(parts@).push(cur@) == splitn_on(s@.take(i as int), n as nat, d),
        decreases s.len() - i,
    {
        let c = s[i];
        let ghost prev = s@.take(i as int);
        assert(s@.take(i + 1).drop_last() =~= prev);
        proof {
            lemma_splitn_on_bounds(prev, n as nat, d);
            assert(views(parts@).push(cur@).len() == parts@.len() + 1);
        }
        if c == d && parts.len() + 1 < n {
            flush_piece(&mut parts, cur);
            cur = Vec::new();
            assert(views(parts@).push(cur@) =~= splitn_on(prev, n as nat, d).push(
                Seq::<char>::empty(),
            ));
        } else {
            cur.push(c);
            assert(views(parts@).push(cur@) =~= splitn_on(prev, n as nat, d).update(
                splitn_on(prev, n as nat, d).len() - 1,
                splitn_on(prev, n as nat, d).last().push(c),
            ));
        }
        i = i + 1;
    }
    assert(s@.take(s.len() as int) =~= s@);
    flush_piece(&mut parts, cur);
    assert(views(parts@) =~= splitn_on(s@, n as nat, d));
    parts
}

// ---------------------------------------------------------------------------
// First occurrence and `split_once`
// ---------------------------------------------------------------------------

/// The index of the first `d` in `s`, if any.
pub open spec fn first_index(s: Seq<char>, d: char) -> Option<int> {
    if exists|i: int| 0 <= i < s.len() && s[i] == d {
        Some(choose|i: int| 0 <= i < s.len() && s[i] == d && forall|k: int| 0 <= k < i ==> s[k] != d)
    } else {
        None
    }
}

pub fn find_char(s: &[char], d: char) -> (r: Option<usize>)
    ensures
        match r {
            Some(i) => i < s.len() && s@[i as int] == d && forall|k: int| 0 <= k < i ==> s@[k] != d,
            None => forall|k: int| 0 <= k < s.len() ==> s@[k] != d,
        },
        r matches Some(i) ==> first_index(s@, d) == Some(i as int),
        r is None ==> first_index(s@, d) is None,
{
    let mut i: usize = 0;
    while i < s.len()
        invariant
            i <= s.len(),
            forall|k: int| 0 <= k < i ==> s@[k] != d,
        decreases s.len() - i,
    {
        if s[i] == d {
            proof {
                let w = choose|j: int| 0 <= j < s.len() && s@[j] == d && forall|k: int| 0 <= k < j ==> s@[k] != d;
                assert(0 <= i < s.len() && s@[i as int] == d && forall|k: int| 0 <= k < i ==> s@[k] != d);
                if w < i {
                } else if w > i {
                    assert(s@[i as int] != d);
                }
            }
            return Some(i);
        }
        i = i + 1;
    }
    None
}

/// `str::split_once(d)`: the parts before and after the first `d`.
pub open spec fn split_once(s: Seq<char>, d: char) -> Option<(Seq<char>, Seq<char>)> {
    match first_index(s, d) {
        Some(i) => Some((s.take(i), s.skip(i + 1))),
        None => None,
    }
}

pub fn split_once_chars(s: &[char], d: char) -> (r: Option<(Vec<char>, Vec<char>)>)
    ensures
        match r {
            Some((a, b)) => split_once(s@, d) == Some((a@, b@)),
            None => split_once(s@, d) is None,
        },
{
    match find_char(s, d) {
        Some(i) => {
            let a = slice_of(s, 0, i);
            let b = slice_of(s, i + 1, s.len());
            assert(a@ =~= s@.take(i as int));
            assert(b@ =~= s@.skip(i + 1));
            Some((a, b))
        },
        None => None,
    }
}

// ---------------------------------------------------------------------------
// Whitespace-separated words
// ---------------------------------------------------------------------------

/// `str::split_whitespace`: the maximal runs of non-whitespace characters.
pub open spec fn words(s: Seq<char>) -> Seq<Seq<char>>
    decreases s.len(),
{
    if s.len() == 0 {
        Seq::<Seq<char>>::empty()
    } else {
        let w = words(s.drop_last());
        let c = s.last();
        if is_ws(c) {
            w
        } else if s.len() >= 2 && !is_ws(s[s.len() - 2]) {
            w.update(w.len() - 1, w.last().push(c))
        } else {
            w.push(seq![c])
        }
    }
}

proof fn lemma_words_nonempty_when_continuing(s: Seq<char>)
    requires
        s.len() >= 1,
        !is_ws(s.last()),
    ensures
        words(s).len() >= 1,
    decreases s.len(),
{
    if s.len() >= 2 && !is_ws(s[s.len() - 2]) {
        lemma_words_nonempty_when_continuing(s.drop_last());
    }
}

pub fn words_chars(s: &[char]) -> (r: Vec<Vec<char>>)
    ensures
        views(r@) == words(s@),
{
    let mut parts: Vec<Vec<char>> = Vec::new();
    let mut cur: Vec<char> = Vec::new();
    let mut in_word = false;
    let mut i: usize = 0;
    while i < s.len()
        invariant
            i <= s.len(),
            in_word == (i > 0 && !is_ws(s@[i - 1])),
            in_word ==> views(parts@).push(cur@) == words(s@.take(i as int)),
            !in_word ==> views(parts@) == words(s@.take(i as int)),
            !in_word ==> cur@.len() == 0,
        decreases s.len() - i,
    {
        let c = s[i];
        let ghost prev = s@.take(i as int);
        assert(s@.take(i + 1).drop_last() =~= prev);
        assert(s@.take(i + 1).last() == c);
        if is_whitespace(c) {
            if in_word {
                flush_piece(&mut parts, cur);
                cur = Vec::new();
                assert(views(parts@) =~= words(prev));
            }
            in_word = false;
        } else {
            if in_word {
                assert(prev.len() >= 1 && !is_ws(prev.last()));
                proof {
                    lemma_words_nonempty_when_continuing(prev);
                }
                assert(s@.take(i + 1)[i - 1] == s@[i - 1]);
                cur.push(c);
                assert(views(parts@).push(cur@) =~= words(prev).update(
                    words(prev).len() - 1,
                    words(prev).last().push(c),
                ));
            } else {
                cur.push(c);
                assert(cur@ =~= seq![c]);
                assert(views(parts@).push(cur@) =~= words(prev).push(seq![c]));
            }
            in_word = true;
        }
        i = i + 1;
    }
    assert(s@.take(s.len() as int) =~= s@);
    if in_word {
        flush_piece(&mut parts, cur);
        assert(views(parts@) =~= words(s@));
    }
    parts
}

// ---------------------------------------------------------------------------
// Lines
// ---------------------------------------------------------------------------

/// A line without one trailing carriage return.
pub open spec fn strip_cr(l: Seq<char>) -> Seq<char> {
    if l.len() > 0 && l.last() == '\r' {
        l.drop_last()
    } else {
        l
    }
}

/// `str::lines`: the text split on `'\n'`, each line without a trailing
/// `'\r'`, and no empty line after a final line break.
pub open spec fn lines(s: Seq<char>) -> Seq<Seq<char>> {
    if s.len() == 0 {
        Seq::<Seq<char>>::empty()
    } else {
        let p = split_on(s, '\n');
        let q = if s.last() == '\n' {
            p.drop_last()
        } else {
            p
        };
        q.map_values(|l: Seq<char>| strip_cr(l))
    }
}

pub fn strip_cr_chars(l: &Vec<char>) -> (r: Vec<char>)
    ensures
        r@ == strip_cr(l@),
{
    if l.len() > 0 && l[l.len() - 1] == '\r' {
        slice_of(l.as_slice(), 0, l.len() - 1)
    } else {
        slice_of(l.as_slice(), 0, l.len())
    }
}

pub fn lines_chars(s: &[char]) -> (r: Vec<Vec<char>>)
    ensures
        views(r@) == lines(s@),
{
    if s.len() == 0 {
        let e: Vec<Vec<char>> = Vec::new();
        assert(views(e@) =~= lines(s@));
        return e;
    }
    let pieces = split_chars(s, '\n');
    proof {
        lemma_split_on_nonempty(s@, '\n');
    }
    let n = if s[s.len() - 1] == '\n' {
        pieces.len() - 1
    } else {
        pieces.len()
    };
    let ghost p = split_on(s@, '\n');
    let ghost q = if s@.last() == '\n' {
        p.drop_last()
    } else {
        p
    };
    assert(q.len() == n);
    let mut out: Vec<Vec<char>> = Vec::new();
    let mut i: usize = 0;
    while i < n
        invariant
            n <= pieces.len(),
            views(pieces@) == p,
            q.len() == n,
            forall|k: int| 0 <= k < n ==> q[k] == p[k],
            i <= n,
            views(out@) == q.take(i as int).map_values(|l: Seq<char>| strip_cr(l)),
        decreases n - i,
    {
        let l = strip_cr_chars(&pieces[i]);
        assert(views(pieces@)[i as int] == pieces@[i as int]@);
        assert(pieces@[i as int]@ == p[i as int]);
        assert(l@ == strip_cr(q[i as int]));
        let ghost before = views(out@);
        flush_piece(&mut out, l);
        assert(views(out@) =~= before.push(strip_cr(q[i as int])));
        assert(q.take(i + 1) =~= q.take(i as int).push(q[i as int]));
        assert(views(out@) =~= q.take(i + 1).map_values(|l: Seq<char>| strip_cr(l)));
        i = i + 1;
    }
    assert(q.take(n as int) =~= q);
    out
}

// ---------------------------------------------------------------------------
// Decimal numbers
// ---------------------------------------------------------------------------

pub open spec fn is_digit(c: char) -> bool {
    '0' <= c && c <= '9'
}

pub open spec fn digit_value(c: char) -> int {
    (c as int) - ('0' as int)
}

/// The value of a sequence of decimal digits.
pub open spec fn digits_value(s: Seq<char>) -> int
    decreases s.len(),
{
    if s.len() == 0 {
        0
    } else {
        digits_value(s.drop_last()) * 10 + digit_value(s.last())
    }
}

pub open spec fn all_digits(s: Seq<char>) -> bool {
    forall|i: int| 0 <= i < s.len() ==> is_digit(s[i])
}

/// The digits of an unsigned decimal number, after an optional `'+'`.
pub open spec fn unsigned_digits(s: Seq<char>) -> Seq<char> {
    if s.len() > 0 && s[0] == '+' {
        s.drop_first()
    } else {
        s
    }
}

/// `str::parse` into an unsigned integer no larger than `max`: the value, if
/// `s` is an optional `'+'` followed by at least one digit and the value fits.
pub open spec fn parse_unsigned(s: Seq<char>, max: int) -> Option<int> {
    let d = unsigned_digits(s);
    if d.len() > 0 && all_digits(d) && digits_value(d) <= max {
        Some(digits_value(d))
    } else {
        None
    }
}

proof fn lemma_digits_value_grows(s: Seq<char>, i: int)
    requires
        0 <= i <= s.len(),
        all_digits(s),
    ensures
        digits_value(s.take(i)) <= digits_value(s),
        0 <= digits_value(s.take(i)),
    decreases s.len() - i,
{
    if i < s.len() {
        lemma_digits_value_grows(s, i + 1);
        assert(s.take(i + 1).drop_last() =~= s.take(i));
        assert(is_digit(s[i]));
    } else {
        assert(s.take(i) =~= s);
        lemma_digits_value_nonneg(s);
    }
}

proof fn lemma_digits_value_nonneg(s: Seq<char>)
    requires
        all_digits(s),
    ensures
        0 <= digits_value(s),
    decreases s.len(),
{
    if s.len() > 0 {
        lemma_digits_value_nonneg(s.drop_last());
    }
}

/// Parses an unsigned decimal number no larger than `max`.
pub fn parse_unsigned_chars(s: &[char], max: u64) -> (r: Option<u64>)
    requires
        max >= 9,
    ensures
        match r {
            Some(v) => parse_unsigned(s@, max as int) == Some(v as int),
            None => parse_unsigned(s@, max as int) is None,
        },
{
    let start: usize = if s.len() > 0 && s[0] == '+' {
        1
    } else {
        0
    };
    let ghost d = unsigned_digits(s@);
    assert(d =~= s@.skip(start as int));
    if start >= s.len() {
        return None;
    }
    let mut value: u64 = 0;
    let mut i: usize = start;
    assert(d.take(0) =~= Seq::<char>::empty());
    while i < s.len()
        invariant
            start <= i <= s.len(),
            d == s@.skip(start as int),
            d == unsigned_digits(s@),
            forall|k: int| start <= k < i ==> is_digit(s@[k]),
            value as int == digits_value(d.take(i - start)),
            value <= max,
            max >= 9,
        decreases s.len() - i,
    {
        let c = s[i];
        assert(d.take(i - start + 1).drop_last() =~= d.take(i - start));
        assert(d[i - start] == c);
        if !('0' <= c && c <= '9') {
            assert(!is_digit(d[i - start]));
            assert(!all_digits(d));
            assert(parse_unsigned(s@, max as int) is None);
            return None;
        }
        let digit: u64 = (c as u64) - ('0' as u64);
        if value > (max - digit) / 10 {
            proof {
                assert(value * 10 + digit > max) by (nonlinear_arith)
                    requires
                        value > (max - digit) / 10,
                        digit <= max,
                ;
                if all_digits(d) {
                    lemma_digits_value_grows(d, i - start + 1);
                    assert(d.take(i - start + 1).last() == c);
                    assert(digits_value(d.take(i - start + 1)) == value * 10 + digit);
                }
                assert(parse_unsigned(s@, max as int) is None);
            }
            return None;
        }
        assert(value * 10 + digit <= max) by (nonlinear_arith)
            requires
                value <= (max - digit) / 10,
                digit <= max,
        ;
        value = value * 10 + digit;
        i = i + 1;
    }
    assert(d.take(s.len() - start) =~= d);
    assert(all_digits(d));
    Some(value)
}

} // verus!

verus! {

pub proof fn lemma_parse_unsigned_nonneg(s: Seq<char>, max: int)
    ensures
        parse_unsigned(s, max) matches Some(v) ==> 0 <= v <= max,
{
    let d = unsigned_digits(s);
    if d.len() > 0 && all_digits(d) {
        lemma_digits_value_nonneg(d);
    }
}

} // verus!
