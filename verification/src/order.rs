//! Three-way comparison results and the lexicographic order on character
//! sequences, with its laws; a search for a key in a strictly sorted list.
use vstd::prelude::*;

verus! {

/// The result of a three-way comparison.
#[derive(Clone, Copy, PartialEq, Eq, Structural, Debug)]
pub enum Order {
    Less,
    Equal,
    Greater,
}

impl Order {
    /// The comparison of the same pair the other way round.
    pub open spec fn flip(self) -> Order {
        match self {
            Order::Less => Order::Greater,
            Order::Equal => Order::Equal,
            Order::Greater => Order::Less,
        }
    }

    pub fn reverse(self) -> (r: Order)
        ensures
            r == self.flip(),
    {
        match self {
            Order::Less => Order::Greater,
            Order::Equal => Order::Equal,
            Order::Greater => Order::Less,
        }
    }

    /// `self`, or `next` where `self` is `Equal` (`Ordering::then`).
    pub open spec fn tie_break(self, next: Order) -> Order {
        match self {
            Order::Equal => next,
            _ => self,
        }
    }
}

/// Three-way comparison of integers.
pub open spec fn compare_int(a: int, b: int) -> Order {
    if a < b {
        Order::Less
    } else if a == b {
        Order::Equal
    } else {
        Order::Greater
    }
}

pub fn compare_u64(a: u64, b: u64) -> (r: Order)
    ensures
        r == compare_int(a as int, b as int),
{
    if a < b {
        Order::Less
    } else if a == b {
        Order::Equal
    } else {
        Order::Greater
    }
}

/// Lexicographic "less than" on character sequences, characters compared by
/// code point (the order of `str`, whose UTF-8 bytes keep code point order).
pub open spec fn lex_lt(a: Seq<char>, b: Seq<char>) -> bool
    decreases a.len(),
{
    if a.len() == 0 {
        b.len() > 0
    } else if b.len() == 0 {
        false
    } else if a[0] != b[0] {
        a[0] < b[0]
    } else {
        lex_lt(a.drop_first(), b.drop_first())
    }
}

/// Three-way lexicographic comparison.
pub open spec fn lex_order(a: Seq<char>, b: Seq<char>) -> Order {
    if lex_lt(a, b) {
        Order::Less
    } else if a == b {
        Order::Equal
    } else {
        Order::Greater
    }
}

pub proof fn lemma_lex_irreflexive(a: Seq<char>)
    ensures
        !lex_lt(a, a),
    decreases a.len(),
{
    if a.len() > 0 {
        lemma_lex_irreflexive(a.drop_first());
    }
}

pub proof fn lemma_lex_total(a: Seq<char>, b: Seq<char>)
    ensures
        lex_lt(a, b) || a == b || lex_lt(b, a),
    decreases a.len(),
{
    if a.len() > 0 && b.len() > 0 && a[0] == b[0] {
        lemma_lex_total(a.drop_first(), b.drop_first());
        if a.drop_first() == b.drop_first() {
            assert(a =~= seq![a[0]] + a.drop_first());
            assert(b =~= seq![b[0]] + b.drop_first());
        }
    } else if a.len() == 0 && b.len() == 0 {
        assert(a =~= b);
    }
}

pub proof fn lemma_lex_asymmetric(a: Seq<char>, b: Seq<char>)
    ensures
        !(lex_lt(a, b) && lex_lt(b, a)),
    decreases a.len(),
{
    if a.len() > 0 && b.len() > 0 && a[0] == b[0] {
        lemma_lex_asymmetric(a.drop_first(), b.drop_first());
    }
}

pub proof fn lemma_lex_transitive(a: Seq<char>, b: Seq<char>, c: Seq<char>)
    requires
        lex_lt(a, b),
        lex_lt(b, c),
    ensures
        lex_lt(a, c),
    decreases a.len(),
{
    if a.len() > 0 && b.len() > 0 && c.len() > 0 && a[0] == b[0] && b[0] == c[0] {
        lemma_lex_transitive(a.drop_first(), b.drop_first(), c.drop_first());
    }
}

/// Lexicographic comparison of two character sequences.
pub fn lex_compare(a: &[char], b: &[char]) -> (r: Order)
    ensures
        r == lex_order(a@, b@),
{
    let mut i: usize = 0;
    while i < a.len() && i < b.len() && a[i] == b[i]
        invariant
            i <= a.len(),
            i <= b.len(),
            a@.take(i as int) == b@.take(i as int),
        decreases a.len() - i,
    {
        assert(a@.take(i + 1) =~= a@.take(i as int).push(a@[i as int]));
        assert(b@.take(i + 1) =~= b@.take(i as int).push(b@[i as int]));
        i = i + 1;
    }
    proof {
        lemma_lex_skip_prefix(a@, b@, i as int);
        lemma_lex_irreflexive(a@);
        lemma_lex_asymmetric(a@, b@);
    }
    if i < a.len() && i < b.len() {
        assert(a@ != b@ ==> true);
        if a[i] < b[i] {
            assert(lex_lt(a@.skip(i as int), b@.skip(i as int)));
            Order::Less
        } else {
            assert(lex_lt(b@.skip(i as int), a@.skip(i as int)));
            assert(a@[i as int] != b@[i as int]);
            assert(a@ != b@);
            Order::Greater
        }
    } else if i < b.len() {
        assert(lex_lt(a@.skip(i as int), b@.skip(i as int)));
        Order::Less
    } else if i < a.len() {
        assert(lex_lt(b@.skip(i as int), a@.skip(i as int)));
        assert(a@.len() != b@.len());
        Order::Greater
    } else {
        assert(a@ =~= a@.take(i as int));
        assert(b@ =~= b@.take(i as int));
        Order::Equal
    }
}

proof fn lemma_lex_skip_prefix(a: Seq<char>, b: Seq<char>, i: int)
    requires
        0 <= i <= a.len(),
        i <= b.len(),
        a.take(i) == b.take(i),
    ensures
        lex_lt(a, b) == lex_lt(a.skip(i), b.skip(i)),
        lex_lt(b, a) == lex_lt(b.skip(i), a.skip(i)),
    decreases i,
{
    if i > 0 {
        assert(a[0] == a.take(i)[0]);
        assert(b[0] == b.take(i)[0]);
        assert(a.drop_first().take(i - 1) =~= a.take(i).drop_first());
        assert(b.drop_first().take(i - 1) =~= b.take(i).drop_first());
        lemma_lex_skip_prefix(a.drop_first(), b.drop_first(), i - 1);
        assert(a.drop_first().skip(i - 1) =~= a.skip(i));
        assert(b.drop_first().skip(i - 1) =~= b.skip(i));
    } else {
        assert(a.skip(0) =~= a);
        assert(b.skip(0) =~= b);
    }
}

// ---------------------------------------------------------------------------
// Strictly sorted key lists
// ---------------------------------------------------------------------------

/// The keys are in strictly increasing lexicographic order.
pub open spec fn strictly_sorted(keys: Seq<Seq<char>>) -> bool {
    forall|i: int, j: int| 0 <= i < j < keys.len() ==> lex_lt(keys[i], keys[j])
}

/// Where `key` is, or where it belongs, in a strictly sorted key list.
pub fn locate_key(keys: &Vec<Vec<char>>, key: &[char]) -> (r: (bool, usize))
    requires
        strictly_sorted(keys@.map_values(|k: Vec<char>| k@)),
    ensures
        r.1 <= keys@.len(),
        r.0 ==> r.1 < keys@.len() && keys@[r.1 as int]@ == key@,
        !r.0 ==> forall|k: int| 0 <= k < keys@.len() ==> keys@[k]@ != key@,
        forall|k: int| 0 <= k < r.1 ==> lex_lt(#[trigger] keys@[k]@, key@),
        !r.0 ==> forall|k: int| r.1 <= k < keys@.len() ==> lex_lt(key@, #[trigger] keys@[k]@),
{
    let ghost ks = keys@.map_values(|k: Vec<char>| k@);
    let mut i: usize = 0;
    while i < keys.len()
        invariant
            i <= keys@.len(),
            ks == keys@.map_values(|k: Vec<char>| k@),
            strictly_sorted(ks),
            forall|k: int| 0 <= k < i ==> lex_lt(#[trigger] keys@[k]@, key@),
        decreases keys.len() - i,
    {
        match lex_compare(keys[i].as_slice(), key) {
            Order::Less => {},
            Order::Equal => {
                return (true, i);
            },
            Order::Greater => {
                proof {
                    lemma_lex_total(keys@[i as int]@, key@);
                    assert forall|k: int| i <= k < keys@.len() implies lex_lt(
                        key@,
                        #[trigger] keys@[k]@,
                    ) by {
                        if k > i {
                            assert(ks[i as int] == keys@[i as int]@);
                            assert(ks[k] == keys@[k]@);
                            lemma_lex_transitive(key@, keys@[i as int]@, keys@[k]@);
                        }
                    }
                    assert forall|k: int| 0 <= k < keys@.len() implies keys@[k]@ != key@ by {
                        if k < i {
                            lemma_lex_irreflexive(key@);
                        } else {
                            lemma_lex_irreflexive(key@);
                        }
                    }
                }
                return (false, i);
            },
        }
        i = i + 1;
    }
    proof {
        assert forall|k: int| 0 <= k < keys@.len() implies keys@[k]@ != key@ by {
            lemma_lex_irreflexive(key@);
        }
    }
    (false, i)
}

} // verus!
