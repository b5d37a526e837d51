//! Partition resources: parsing `sinfo` and `squeue` summaries, combining
//! them, and ordering the partitions for display.
use vstd::prelude::*;

use crate::order::{
    compare_int, compare_u64, lemma_lex_asymmetric, lemma_lex_irreflexive, lemma_lex_total,
    lemma_lex_transitive, lex_compare, lex_lt, lex_order, locate_key, strictly_sorted, Order,
};
use crate::split::{lines, lines_chars, parse_unsigned, parse_unsigned_chars, split_once, split_once_chars, views, words, words_chars};
use crate::text::{chars_eq, chars_eq_str, chars_of, lowercase, lowercase_of, slice_of, string_of, trim, trim_chars};

verus! {

broadcast use vstd::seq_lib::group_to_multiset_ensures;

/// Node counts of one partition.
#[derive(Debug)]
pub struct PartitionResources {
    pub partition: String,
    pub total_nodes: u32,
    pub running_nodes: u32,
    pub group_used_nodes: u32,
    pub available_nodes: u32,
}

/// How a node state counts.
#[derive(Clone, Copy, PartialEq, Eq, Structural, Debug)]
pub enum NodeState {
    Running,
    Available,
    Unavailable,
}

/// Allocated and mixed nodes run jobs, idle nodes are available, and every
/// other state (down, drain, fail, reserved, ...) is unavailable; case does
/// not matter.
pub open spec fn node_state_of(state: Seq<char>) -> NodeState {
    let l = lowercase_of(state);
    if l == "allocated"@ || l == "alloc"@ || l == "mixed"@ || l == "mix"@ {
        NodeState::Running
    } else if l == "idle"@ {
        NodeState::Available
    } else {
        NodeState::Unavailable
    }
}

pub fn normalize_node_state(state: &[char]) -> (r: NodeState)
    ensures
        r == node_state_of(state@),
{
    let l = lowercase(state);
    let l = l.as_slice();
    if chars_eq_str(l, "allocated") || chars_eq_str(l, "alloc") || chars_eq_str(l, "mixed")
        || chars_eq_str(l, "mix") {
        NodeState::Running
    } else if chars_eq_str(l, "idle") {
        NodeState::Available
    } else {
        NodeState::Unavailable
    }
}

// ---------------------------------------------------------------------------
// sinfo -o '%P %t %D'
// ---------------------------------------------------------------------------

/// One line of `sinfo -o '%P %t %D' --noheader`: partition, state and node
/// count (1 where the count is missing or not a number).
pub open spec fn sinfo_line(line: Seq<char>) -> Option<(Seq<char>, Seq<char>, int)> {
    let t = trim(line);
    let ws = words(t);
    if t.len() == 0 || ws.len() < 2 {
        None
    } else {
        let count = if ws.len() >= 3 {
            match parse_unsigned(ws[2], u32::MAX as int) {
                Some(v) => v,
                None => 1,
            }
        } else {
            1
        };
        Some((ws[0], ws[1], count))
    }
}

/// Node counts of one partition, in unbounded integers.
pub ghost struct Tally {
    pub total: int,
    pub running: int,
    pub available: int,
}

pub open spec fn empty_tally() -> Tally {
    Tally { total: 0, running: 0, available: 0 }
}

/// `count` more nodes in `state`; the total saturates at `u32::MAX`.
pub open spec fn add_nodes(t: Tally, state: Seq<char>, count: int) -> Tally {
    let total = if t.total + count > u32::MAX {
        u32::MAX as int
    } else {
        t.total + count
    };
    match node_state_of(state) {
        NodeState::Running => Tally { total, running: t.running + count, available: t.available },
        NodeState::Available => Tally { total, running: t.running, available: t.available + count },
        NodeState::Unavailable => Tally { total, running: t.running, available: t.available },
    }
}

/// The node counts per partition that the lines of `sinfo` add up to.
pub open spec fn sinfo_tally(ls: Seq<Seq<char>>) -> Map<Seq<char>, Tally>
    decreases ls.len(),
{
    if ls.len() == 0 {
        Map::empty()
    } else {
        let m = sinfo_tally(ls.drop_last());
        match sinfo_line(ls.last()) {
            None => m,
            Some(rec) => tally_step(m, rec.0, rec.1, rec.2),
        }
    }
}

/// `count` more nodes of `partition` in `state`.
pub open spec fn tally_step(m: Map<Seq<char>, Tally>, partition: Seq<char>, state: Seq<char>, count: int) -> Map<Seq<char>, Tally> {
    let old = if m.contains_key(partition) {
        m[partition]
    } else {
        empty_tally()
    };
    m.insert(partition, add_nodes(old, state, count))
}

/// Parallel key and count lists hold exactly the tallies of `m`, keys sorted.
pub open spec fn represents(keys: Seq<Vec<char>>, counts: Seq<(u32, u32, u32)>, m: Map<Seq<char>, Tally>) -> bool {
    &&& keys.len() == counts.len()
    &&& strictly_sorted(keys_view(keys))
    &&& forall|p: Seq<char>| #[trigger] m.contains_key(p) <==> keys_view(keys).contains(p)
    &&& forall|k: int|
        0 <= k < keys.len() ==> {
            let t = m[#[trigger] keys[k]@];
            &&& counts[k].0 == t.total
            &&& counts[k].1 == t.running
            &&& counts[k].2 == t.available
        }
}

/// The running and available counts of every partition fit in `u32`.
pub open spec fn tally_fits(m: Map<Seq<char>, Tally>) -> bool {
    forall|p: Seq<char>|
        #[trigger] m.contains_key(p) ==> m[p].running <= u32::MAX && m[p].available <= u32::MAX
}

pub open spec fn partitions_of(rows: Seq<PartitionResources>) -> Seq<Seq<char>> {
    rows.map_values(|r: PartitionResources| r.partition@)
}

/// `rows` lists the partitions of `m` once each, ordered by name, with the
/// counts of `m` and no group usage.
pub open spec fn rows_match_tally(rows: Seq<PartitionResources>, m: Map<Seq<char>, Tally>) -> bool {
    &&& strictly_sorted(partitions_of(rows))
    &&& forall|p: Seq<char>| #[trigger]
        m.contains_key(p) <==> partitions_of(rows).contains(p)
    &&& forall|i: int|
        0 <= i < rows.len() ==> {
            let r = #[trigger] rows[i];
            &&& m.contains_key(r.partition@)
            &&& r.total_nodes == m[r.partition@].total
            &&& r.running_nodes == m[r.partition@].running
            &&& r.available_nodes == m[r.partition@].available
            &&& r.group_used_nodes == 0
        }
}

proof fn lemma_tally_grows(ls: Seq<Seq<char>>, i: int, p: Seq<char>)
    requires
        0 <= i <= ls.len(),
        sinfo_tally(ls.take(i)).contains_key(p),
    ensures
        sinfo_tally(ls).contains_key(p),
        sinfo_tally(ls.take(i))[p].running <= sinfo_tally(ls)[p].running,
        sinfo_tally(ls.take(i))[p].available <= sinfo_tally(ls)[p].available,
        0 <= sinfo_tally(ls.take(i))[p].running,
        0 <= sinfo_tally(ls.take(i))[p].available,
    decreases ls.len() - i,
{
    lemma_tally_nonneg(ls.take(i), p);
    if i < ls.len() {
        let a = ls.take(i);
        let b = ls.take(i + 1);
        assert(b.drop_last() =~= a);
        assert(b.last() == ls[i]);
        lemma_sinfo_count_nonneg(ls[i]);
        lemma_tally_nonneg(a, p);
        assert(sinfo_tally(b).contains_key(p));
        assert(sinfo_tally(a)[p].running <= sinfo_tally(b)[p].running);
        assert(sinfo_tally(a)[p].available <= sinfo_tally(b)[p].available);
        lemma_tally_grows(ls, i + 1, p);
    } else {
        assert(ls.take(i) =~= ls);
    }
}

proof fn lemma_tally_nonneg(ls: Seq<Seq<char>>, p: Seq<char>)
    ensures
        sinfo_tally(ls).contains_key(p) ==> 0 <= sinfo_tally(ls)[p].running && 0
            <= sinfo_tally(ls)[p].available && 0 <= sinfo_tally(ls)[p].total,
    decreases ls.len(),
{
    if ls.len() > 0 {
        lemma_tally_nonneg(ls.drop_last(), p);
        match sinfo_line(ls.last()) {
            None => {},
            Some(rec) => {
                lemma_sinfo_count_nonneg(ls.last());
            },
        }
    }
}

proof fn lemma_sinfo_count_nonneg(line: Seq<char>)
    ensures
        sinfo_line(line) matches Some(rec) ==> 0 <= rec.2 <= u32::MAX,
{
    let t = trim(line);
    let ws = words(t);
    if t.len() > 0 && ws.len() >= 3 {
        match parse_unsigned(ws[2], u32::MAX as int) {
            Some(v) => {
                crate::split::lemma_parse_unsigned_nonneg(ws[2], u32::MAX as int);
            },
            None => {},
        }
    }
}

/// One parsed `sinfo` line.
fn sinfo_line_chars(line: &[char]) -> (r: Option<(Vec<char>, Vec<char>, u32)>)
    ensures
        match r {
            Some(x) => sinfo_line(line@) == Some((x.0@, x.1@, x.2 as int)),
            None => sinfo_line(line@) is None,
        },
{
    let t = trim_chars(line);
    let ws = words_chars(t.as_slice());
    if t.len() == 0 || ws.len() < 2 {
        return None;
    }
    assert(views(ws@)[0] == ws@[0]@);
    assert(views(ws@)[1] == ws@[1]@);
    let count: u32 = if ws.len() >= 3 {
        assert(views(ws@)[2] == ws@[2]@);
        match parse_unsigned_chars(ws[2].as_slice(), 0xffff_ffff) {
            Some(v) => v as u32,
            None => 1,
        }
    } else {
        1
    };
    Some((slice_of(ws[0].as_slice(), 0, ws[0].len()), slice_of(ws[1].as_slice(), 0, ws[1].len()), count))
}

pub open spec fn keys_view(keys: Seq<Vec<char>>) -> Seq<Seq<char>> {
    keys.map_values(|k: Vec<char>| k@)
}

proof fn lemma_insert_keeps_sorted(keys: Seq<Seq<char>>, k: int, key: Seq<char>)
    requires
        strictly_sorted(keys),
        0 <= k <= keys.len(),
        forall|i: int| 0 <= i < k ==> lex_lt(#[trigger] keys[i], key),
        forall|i: int| k <= i < keys.len() ==> lex_lt(key, #[trigger] keys[i]),
    ensures
        strictly_sorted(keys.insert(k, key)),
{
    let n = keys.insert(k, key);
    assert forall|i: int, j: int| 0 <= i < j < n.len() implies lex_lt(n[i], n[j]) by {
        if j < k {
        } else if j == k {
            assert(n[i] == keys[i]);
        } else if i < k {
            assert(n[j] == keys[j - 1]);
            assert(lex_lt(keys[i], key));
            assert(lex_lt(key, keys[j - 1]));
            lemma_lex_transitive(keys[i], key, keys[j - 1]);
        } else if i == k {
            assert(n[j] == keys[j - 1]);
        } else {
            assert(n[i] == keys[i - 1]);
            assert(n[j] == keys[j - 1]);
        }
    }
}


/// Adds `count` nodes of `partition` in `state` to the tallies.
fn tally_add(
    keys: &mut Vec<Vec<char>>,
    counts: &mut Vec<(u32, u32, u32)>,
    partition: Vec<char>,
    state: &[char],
    count: u32,
    Ghost(m): Ghost<Map<Seq<char>, Tally>>,
)
    requires
        represents(old(keys)@, old(counts)@, m),
        tally_step(m, partition@, state@, count as int)[partition@].running <= u32::MAX,
        tally_step(m, partition@, state@, count as int)[partition@].available <= u32::MAX,
        forall|p: Seq<char>| #[trigger] m.contains_key(p) ==> 0 <= m[p].running && 0 <= m[p].available,
    ensures
        represents(final(keys)@, final(counts)@, tally_step(m, partition@, state@, count as int)),
{
    let ghost newm = tally_step(m, partition@, state@, count as int);
    let (found, k) = locate_key(&*keys, partition.as_slice());
    let ns = normalize_node_state(state);
    if found {
        assert(keys_view(keys@)[k as int] == keys@[k as int]@);
        assert(keys_view(keys@).contains(partition@));
        let (t0, r0, a0) = counts[k];
        let total = if t0 as u64 + count as u64 > 0xffff_ffffu64 {
            0xffff_ffffu32
        } else {
            t0 + count
        };
        let entry = match ns {
            NodeState::Running => (total, r0 + count, a0),
            NodeState::Available => (total, r0, a0 + count),
            NodeState::Unavailable => (total, r0, a0),
        };
        counts.set(k, entry);
        proof {
            assert forall|p: Seq<char>| #[trigger]
                newm.contains_key(p) <==> keys_view(keys@).contains(p) by {
                if keys_view(keys@).contains(p) {
                    assert(m.contains_key(p));
                }
            }
            assert forall|j: int| 0 <= j < keys.len() implies {
                let t = newm[#[trigger] keys@[j]@];
                &&& counts@[j].0 == t.total
                &&& counts@[j].1 == t.running
                &&& counts@[j].2 == t.available
            } by {
                assert(keys_view(keys@)[j] == keys@[j]@);
                if j != k {
                    assert(strictly_sorted(keys_view(keys@)));
                    if keys@[j]@ == partition@ {
                        if j < k {
                            assert(lex_lt(keys_view(keys@)[j], keys_view(keys@)[k as int]));
                        } else {
                            assert(lex_lt(keys_view(keys@)[k as int], keys_view(keys@)[j]));
                        }
                        lemma_lex_irreflexive(partition@);
                    }
                }
            }
        }
    } else {
        let total = count;
        let entry = match ns {
            NodeState::Running => (total, count, 0),
            NodeState::Available => (total, 0, count),
            NodeState::Unavailable => (total, 0, 0),
        };
        let ghost oldkeys = keys_view(keys@);
        proof {
            lemma_insert_keeps_sorted(oldkeys, k as int, partition@);
            assert(!m.contains_key(partition@));
        }
        keys.insert(k, partition);
        counts.insert(k, entry);
        assert(keys_view(keys@) =~= oldkeys.insert(k as int, keys@[k as int]@));
        proof {
            assert forall|p: Seq<char>| #[trigger]
                newm.contains_key(p) <==> keys_view(keys@).contains(p) by {
                if newm.contains_key(p) && p != keys@[k as int]@ {
                    assert(m.contains_key(p));
                    assert(oldkeys.contains(p));
                    let w = choose|w: int| 0 <= w < oldkeys.len() && oldkeys[w] == p;
                    if w < k {
                        assert(keys_view(keys@)[w] == p);
                    } else {
                        assert(keys_view(keys@)[w + 1] == p);
                    }
                }
                if keys_view(keys@).contains(p) && p != keys@[k as int]@ {
                    let w = choose|w: int| 0 <= w < keys_view(keys@).len() && keys_view(keys@)[w] == p;
                    if w < k {
                        assert(oldkeys[w] == p);
                    } else {
                        assert(oldkeys[w - 1] == p);
                    }
                }
                if p == keys@[k as int]@ {
                    assert(keys_view(keys@)[k as int] == p);
                }
            }
            assert forall|j: int| 0 <= j < keys.len() implies {
                let t = newm[#[trigger] keys@[j]@];
                &&& counts@[j].0 == t.total
                &&& counts@[j].1 == t.running
                &&& counts@[j].2 == t.available
            } by {
                if j < k {
                    assert(keys_view(keys@)[j] == oldkeys[j]);
                    assert(keys@[j]@ != partition@);
                } else if j > k {
                    assert(keys_view(keys@)[j] == oldkeys[j - 1]);
                    assert(keys@[j]@ != partition@);
                }
            }
        }
    }
}

/// One row per tallied partition, in key order, without group usage.
fn rows_from(keys: &Vec<Vec<char>>, counts: &Vec<(u32, u32, u32)>, Ghost(m): Ghost<Map<Seq<char>, Tally>>) -> (rows: Vec<PartitionResources>)
    requires
        represents(keys@, counts@, m),
    ensures
        rows_match_tally(rows@, m),
{
    let mut rows: Vec<PartitionResources> = Vec::new();
    let mut j: usize = 0;
    while j < keys.len()
        invariant
            keys.len() == counts.len(),
            j <= keys.len(),
            rows@.len() == j,
            forall|k: int| 0 <= k < j ==> {
                let r = #[trigger] rows@[k];
                &&& r.partition@ == keys@[k]@
                &&& r.total_nodes == counts@[k].0
                &&& r.running_nodes == counts@[k].1
                &&& r.available_nodes == counts@[k].2
                &&& r.group_used_nodes == 0
            },
        decreases keys.len() - j,
    {
        let (t, rn, av) = counts[j];
        rows.push(
            PartitionResources {
                partition: string_of(keys[j].as_slice()),
                total_nodes: t,
                running_nodes: rn,
                group_used_nodes: 0,
                available_nodes: av,
            },
        );
        j = j + 1;
    }
    assert(partitions_of(rows@) =~= keys_view(keys@));
    proof {
        
        assert forall|p: Seq<char>| #[trigger]
            m.contains_key(p) <==> partitions_of(rows@).contains(p) by {
        }
        assert forall|k: int| 0 <= k < rows@.len() implies {
            let r = #[trigger] rows@[k];
            &&& m.contains_key(r.partition@)
            &&& r.total_nodes == m[r.partition@].total
            &&& r.running_nodes == m[r.partition@].running
            &&& r.available_nodes == m[r.partition@].available
            &&& r.group_used_nodes == 0
        } by {
            assert(keys_view(keys@)[k] == keys@[k]@);
            assert(keys_view(keys@).contains(keys@[k]@));
        }
    }
    rows
}

/// Parses `sinfo -o '%P %t %D' --noheader` output into one row per partition,
/// ordered by partition name, with node counts per state.
pub fn parse_sinfo_plain(text: &str) -> (r: Vec<PartitionResources>)
    requires
        tally_fits(sinfo_tally(lines(text@))),
    ensures
        rows_match_tally(r@, sinfo_tally(lines(text@))),
{
    match try_parse_sinfo_plain(text) {
        Some(rows) => rows,
        None => Vec::new(),
    }
}

/// Whether `count` more nodes of `partition` in `state` keep its running
/// and available counts within `u32`.
fn tally_step_fits(
    keys: &Vec<Vec<char>>,
    counts: &Vec<(u32, u32, u32)>,
    partition: &[char],
    state: &[char],
    count: u32,
    Ghost(m): Ghost<Map<Seq<char>, Tally>>,
) -> (r: bool)
    requires
        represents(keys@, counts@, m),
    ensures
        r == (tally_step(m, partition@, state@, count as int)[partition@].running <= u32::MAX
            && tally_step(m, partition@, state@, count as int)[partition@].available <= u32::MAX),
{
    let (found, k) = locate_key(keys, partition);
    if !found {
        return true;
    }
    assert(keys_view(keys@)[k as int] == keys@[k as int]@);
    assert(keys_view(keys@).contains(partition@));
    let (_t0, r0, a0) = counts[k];
    match normalize_node_state(state) {
        NodeState::Running => (r0 as u64) + (count as u64) <= 0xffff_ffffu64,
        NodeState::Available => (a0 as u64) + (count as u64) <= 0xffff_ffffu64,
        NodeState::Unavailable => true,
    }
}

/// Parses `sinfo` output as [`parse_sinfo_plain`] does; none where a
/// partition's running or available count passes `u32::MAX`.
pub fn try_parse_sinfo_plain(text: &str) -> (r: Option<Vec<PartitionResources>>)
    ensures
        r is Some <==> tally_fits(sinfo_tally(lines(text@))),
        r matches Some(rows) ==> rows_match_tally(rows@, sinfo_tally(lines(text@))),
{
    let tv = chars_of(text);
    let ls = lines_chars(tv.as_slice());
    let ghost lv = lines(text@);
    let mut keys: Vec<Vec<char>> = Vec::new();
    let mut counts: Vec<(u32, u32, u32)> = Vec::new();
    let mut i: usize = 0;
    assert(lv.take(0) =~= Seq::<Seq<char>>::empty());
    while i < ls.len()
        invariant
            views(ls@) == lv,
            lv == lines(text@),
            i <= ls.len(),
            represents(keys@, counts@, sinfo_tally(lv.take(i as int))),
        decreases ls.len() - i,
    {
        let ghost prev = lv.take(i as int);
        assert(lv.take(i + 1).drop_last() =~= prev);
        assert(lv.take(i + 1).last() == lv[i as int]);
        assert(views(ls@)[i as int] == ls@[i as int]@);
        let ghost m = sinfo_tally(prev);
        match sinfo_line_chars(ls[i].as_slice()) {
            None => {},
            Some((partition, state, count)) => {
                proof {
                    lemma_tally_grows(lv, i + 1, partition@);
                    assert(sinfo_tally(lv.take(i + 1)) == tally_step(m, partition@, state@, count as int));
                    assert forall|p: Seq<char>| #[trigger] m.contains_key(p) implies 0 <= m[p].running && 0 <= m[p].available by {
                        lemma_tally_nonneg(prev, p);
                    }
                }
                if !tally_step_fits(&keys, &counts, partition.as_slice(), state.as_slice(), count, Ghost(m)) {
                    proof {
                        let fin = sinfo_tally(lv);
                        assert(fin.contains_key(partition@));
                        assert(!(fin[partition@].running <= u32::MAX && fin[partition@].available <= u32::MAX));
                        assert(!tally_fits(fin)) by {
                            if tally_fits(fin) {
                                assert(fin.contains_key(partition@));
                            }
                        }
                    }
                    return None;
                }
                tally_add(&mut keys, &mut counts, partition, state.as_slice(), count, Ghost(m));
            },
        }
        i = i + 1;
    }
    assert(lv.take(ls.len() as int) =~= lv);
    proof {
        let fin = sinfo_tally(lv);
        assert forall|p: Seq<char>| #[trigger] fin.contains_key(p) implies fin[p].running <= u32::MAX
            && fin[p].available <= u32::MAX by {
            assert(keys_view(keys@).contains(p));
            let k = choose|k: int| 0 <= k < keys_view(keys@).len() && keys_view(keys@)[k] == p;
            assert(keys@[k]@ == p);
        }
    }
    Some(rows_from(&keys, &counts, Ghost(sinfo_tally(lv))))
}

} // verus!

verus! {

// ---------------------------------------------------------------------------
// sinfo --json
// ---------------------------------------------------------------------------

/// What the JSON document of `sinfo --json` holds for one node: its
/// `partition` and `state`, where each is present as a string.
pub struct SinfoNode {
    pub partition: Option<String>,
    pub state: Option<String>,
}

/// The node counts per partition of a JSON node list; a node without a
/// partition or a state is skipped.
pub open spec fn json_tally(nodes: Seq<SinfoNode>) -> Map<Seq<char>, Tally>
    decreases nodes.len(),
{
    if nodes.len() == 0 {
        Map::empty()
    } else {
        let m = json_tally(nodes.drop_last());
        let n = nodes.last();
        match (n.partition, n.state) {
            (Some(p), Some(st)) => tally_step(m, p@, st@, 1),
            _ => m,
        }
    }
}

proof fn lemma_json_tally_grows(nodes: Seq<SinfoNode>, i: int, p: Seq<char>)
    requires
        0 <= i <= nodes.len(),
        json_tally(nodes.take(i)).contains_key(p),
    ensures
        json_tally(nodes).contains_key(p),
        json_tally(nodes.take(i))[p].running <= json_tally(nodes)[p].running,
        json_tally(nodes.take(i))[p].available <= json_tally(nodes)[p].available,
        0 <= json_tally(nodes.take(i))[p].running,
        0 <= json_tally(nodes.take(i))[p].available,
    decreases nodes.len() - i,
{
    lemma_json_tally_nonneg(nodes.take(i), p);
    if i < nodes.len() {
        let a = nodes.take(i);
        let b = nodes.take(i + 1);
        assert(b.drop_last() =~= a);
        assert(b.last() == nodes[i]);
        lemma_json_tally_grows(nodes, i + 1, p);
    } else {
        assert(nodes.take(i) =~= nodes);
    }
}

proof fn lemma_json_tally_nonneg(nodes: Seq<SinfoNode>, p: Seq<char>)
    ensures
        json_tally(nodes).contains_key(p) ==> 0 <= json_tally(nodes)[p].running && 0
            <= json_tally(nodes)[p].available && 0 <= json_tally(nodes)[p].total,
    decreases nodes.len(),
{
    if nodes.len() > 0 {
        lemma_json_tally_nonneg(nodes.drop_last(), p);
    }
}

/// Counts the nodes of `sinfo --json` per partition: rows ordered by
/// partition name; without a node list there are no rows.
pub fn parse_sinfo_json(nodes: &Option<Vec<SinfoNode>>) -> (r: Vec<PartitionResources>)
    requires
        nodes matches Some(ns) ==> tally_fits(json_tally(ns@)),
    ensures
        match nodes {
            Some(ns) => rows_match_tally(r@, json_tally(ns@)),
            None => r@.len() == 0,
        },
{
    let ns = match nodes {
        Some(ns) => ns,
        None => {
            return Vec::new();
        },
    };
    let mut keys: Vec<Vec<char>> = Vec::new();
    let mut counts: Vec<(u32, u32, u32)> = Vec::new();
    let mut i: usize = 0;
    assert(ns@.take(0) =~= Seq::<SinfoNode>::empty());
    while i < ns.len()
        invariant
            tally_fits(json_tally(ns@)),
            i <= ns.len(),
            represents(keys@, counts@, json_tally(ns@.take(i as int))),
        decreases ns.len() - i,
    {
        let ghost prev = ns@.take(i as int);
        let ghost m = json_tally(prev);
        assert(ns@.take(i + 1).drop_last() =~= prev);
        assert(ns@.take(i + 1).last() == ns@[i as int]);
        let node = &ns[i];
        match (&node.partition, &node.state) {
            (Some(p), Some(st)) => {
                let pc = chars_of(p.as_str());
                let sc = chars_of(st.as_str());
                proof {
                    lemma_json_tally_grows(ns@, i + 1, p@);
                    assert forall|q: Seq<char>| #[trigger] m.contains_key(q) implies 0 <= m[q].running && 0 <= m[q].available by {
                        lemma_json_tally_nonneg(prev, q);
                    }
                }
                tally_add(&mut keys, &mut counts, pc, sc.as_slice(), 1, Ghost(m));
            },
            _ => {},
        }
        i = i + 1;
    }
    assert(ns@.take(ns.len() as int) =~= ns@);
    rows_from(&keys, &counts, Ghost(json_tally(ns@)))
}

} // verus!

verus! {

// ---------------------------------------------------------------------------
// squeue --format=%P|%D: nodes that the group's running jobs use
// ---------------------------------------------------------------------------

/// One `partition|count` line; lines without `|` or without a number count
/// for nothing.
pub open spec fn usage_line(line: Seq<char>) -> Option<(Seq<char>, int)> {
    match split_once(trim(line), '|') {
        None => None,
        Some(p) => match parse_unsigned(trim(p.1), u32::MAX as int) {
            None => None,
            Some(c) => Some((trim(p.0), c)),
        },
    }
}

/// The nodes per partition that the lines add up to.
pub open spec fn usage_tally(ls: Seq<Seq<char>>) -> Map<Seq<char>, int>
    decreases ls.len(),
{
    if ls.len() == 0 {
        Map::empty()
    } else {
        let m = usage_tally(ls.drop_last());
        match usage_line(ls.last()) {
            None => m,
            Some(rec) => {
                let old = if m.contains_key(rec.0) {
                    m[rec.0]
                } else {
                    0
                };
                m.insert(rec.0, old + rec.1)
            },
        }
    }
}

pub open spec fn usage_fits(m: Map<Seq<char>, int>) -> bool {
    forall|p: Seq<char>| #[trigger] m.contains_key(p) ==> m[p] <= u32::MAX
}

pub open spec fn usage_keys(u: Seq<(String, u32)>) -> Seq<Seq<char>> {
    u.map_values(|e: (String, u32)| e.0@)
}

/// `u` lists the partitions of `m` once each, ordered by name, with their counts.
pub open spec fn usage_matches(u: Seq<(String, u32)>, m: Map<Seq<char>, int>) -> bool {
    &&& strictly_sorted(usage_keys(u))
    &&& forall|p: Seq<char>| #[trigger] m.contains_key(p) <==> usage_keys(u).contains(p)
    &&& forall|i: int| 0 <= i < u.len() ==> m[(#[trigger] u[i]).0@] == u[i].1
}

proof fn lemma_usage_grows(ls: Seq<Seq<char>>, i: int, p: Seq<char>)
    requires
        0 <= i <= ls.len(),
        usage_tally(ls.take(i)).contains_key(p),
    ensures
        usage_tally(ls).contains_key(p),
        0 <= usage_tally(ls.take(i))[p] <= usage_tally(ls)[p],
    decreases ls.len() - i,
{
    lemma_usage_nonneg(ls.take(i), p);
    if i < ls.len() {
        let a = ls.take(i);
        let b = ls.take(i + 1);
        assert(b.drop_last() =~= a);
        assert(b.last() == ls[i]);
        lemma_usage_line_nonneg(ls[i]);
        lemma_usage_grows(ls, i + 1, p);
    } else {
        assert(ls.take(i) =~= ls);
    }
}

proof fn lemma_usage_line_nonneg(line: Seq<char>)
    ensures
        usage_line(line) matches Some(rec) ==> 0 <= rec.1,
{
    match split_once(trim(line), '|') {
        None => {},
        Some(p) => {
            crate::split::lemma_parse_unsigned_nonneg(trim(p.1), u32::MAX as int);
        },
    }
}

proof fn lemma_usage_nonneg(ls: Seq<Seq<char>>, p: Seq<char>)
    ensures
        usage_tally(ls).contains_key(p) ==> 0 <= usage_tally(ls)[p],
    decreases ls.len(),
{
    if ls.len() > 0 {
        lemma_usage_nonneg(ls.drop_last(), p);
        lemma_usage_line_nonneg(ls.last());
    }
}

fn usage_line_chars(line: &[char]) -> (r: Option<(Vec<char>, u32)>)
    ensures
        match r {
            Some(x) => usage_line(line@) == Some((x.0@, x.1 as int)),
            None => usage_line(line@) is None,
        },
{
    let t = trim_chars(line);
    match split_once_chars(t.as_slice(), '|') {
        None => None,
        Some((a, b)) => {
            let bt = trim_chars(b.as_slice());
            match parse_unsigned_chars(bt.as_slice(), 0xffff_ffff) {
                None => None,
                Some(c) => Some((trim_chars(a.as_slice()), c as u32)),
            }
        },
    }
}

/// Sums the node counts of `partition|count` lines per partition, ordered by
/// partition name.
pub fn parse_group_usage(text: &str) -> (r: Vec<(String, u32)>)
    requires
        usage_fits(usage_tally(lines(text@))),
    ensures
        usage_matches(r@, usage_tally(lines(text@))),
{
    match try_parse_group_usage(text) {
        Some(u) => u,
        None => Vec::new(),
    }
}

/// Sums the usage lines as [`parse_group_usage`] does; none where a
/// partition's sum passes `u32::MAX`.
#[verifier::rlimit(50)]
pub fn try_parse_group_usage(text: &str) -> (r: Option<Vec<(String, u32)>>)
    ensures
        r is Some <==> usage_fits(usage_tally(lines(text@))),
        r matches Some(u) ==> usage_matches(u@, usage_tally(lines(text@))),
{
    let tv = chars_of(text);
    let ls = lines_chars(tv.as_slice());
    let ghost lv = lines(text@);
    let mut keys: Vec<Vec<char>> = Vec::new();
    let mut counts: Vec<u32> = Vec::new();
    let mut i: usize = 0;
    assert(lv.take(0) =~= Seq::<Seq<char>>::empty());
    while i < ls.len()
        invariant
            views(ls@) == lv,
            lv == lines(text@),
            i <= ls.len(),
            keys.len() == counts.len(),
            strictly_sorted(keys_view(keys@)),
            forall|p: Seq<char>| #[trigger]
                usage_tally(lv.take(i as int)).contains_key(p) <==> keys_view(keys@).contains(p),
            forall|k: int| 0 <= k < keys.len() ==> counts@[k] == usage_tally(lv.take(i as int))[#[trigger] keys@[k]@],
        decreases ls.len() - i,
    {
        let ghost prev = lv.take(i as int);
        let ghost m = usage_tally(prev);
        assert(lv.take(i + 1).drop_last() =~= prev);
        assert(lv.take(i + 1).last() == lv[i as int]);
        assert(views(ls@)[i as int] == ls@[i as int]@);
        match usage_line_chars(ls[i].as_slice()) {
            None => {},
            Some((partition, count)) => {
                let ghost newm = usage_tally(lv.take(i + 1));
                proof {
                    lemma_usage_grows(lv, i + 1, partition@);
                }
                let (found, k) = locate_key(&keys, partition.as_slice());
                if found {
                    assert(keys_view(keys@)[k as int] == keys@[k as int]@);
                    assert(keys_view(keys@).contains(partition@));
                    proof {
                        lemma_usage_nonneg(prev, partition@);
                    }
                    let c0 = counts[k];
                    if (c0 as u64) + (count as u64) > 0xffff_ffffu64 {
                        proof {
                            let fin = usage_tally(lv);
                            assert(!usage_fits(fin)) by {
                                if usage_fits(fin) {
                                    assert(fin.contains_key(partition@));
                                }
                            }
                        }
                        return None;
                    }
                    counts.set(k, c0 + count);
                    proof {
                        assert forall|p: Seq<char>| #[trigger]
                            newm.contains_key(p) <==> keys_view(keys@).contains(p) by {
                            if keys_view(keys@).contains(p) {
                                assert(m.contains_key(p));
                            }
                        }
                        assert forall|j: int| 0 <= j < keys.len() implies counts@[j] == newm[#[trigger] keys@[j]@] by {
                            assert(keys_view(keys@)[j] == keys@[j]@);
                            if j != k && keys@[j]@ == partition@ {
                                if j < k {
                                    assert(lex_lt(keys_view(keys@)[j], keys_view(keys@)[k as int]));
                                } else {
                                    assert(lex_lt(keys_view(keys@)[k as int], keys_view(keys@)[j]));
                                }
                                lemma_lex_irreflexive(partition@);
                            }
                        }
                    }
                } else {
                    let ghost oldkeys = keys_view(keys@);
                    proof {
                        lemma_insert_keeps_sorted(oldkeys, k as int, partition@);
                        assert(!m.contains_key(partition@));
                    }
                    keys.insert(k, partition);
                    counts.insert(k, count);
                    assert(keys_view(keys@) =~= oldkeys.insert(k as int, keys@[k as int]@));
                    proof {
                        assert forall|p: Seq<char>| #[trigger]
                            newm.contains_key(p) <==> keys_view(keys@).contains(p) by {
                            if newm.contains_key(p) && p != keys@[k as int]@ {
                                assert(oldkeys.contains(p));
                                let w = choose|w: int| 0 <= w < oldkeys.len() && oldkeys[w] == p;
                                if w < k {
                                    assert(keys_view(keys@)[w] == p);
                                } else {
                                    assert(keys_view(keys@)[w + 1] == p);
                                }
                            }
                            if keys_view(keys@).contains(p) && p != keys@[k as int]@ {
                                let w = choose|w: int| 0 <= w < keys_view(keys@).len() && keys_view(keys@)[w] == p;
                                if w < k {
                                    assert(oldkeys[w] == p);
                                } else {
                                    assert(oldkeys[w - 1] == p);
                                }
                            }
                            if p == keys@[k as int]@ {
                                assert(keys_view(keys@)[k as int] == p);
                            }
                        }
                        assert forall|j: int| 0 <= j < keys.len() implies counts@[j] == newm[#[trigger] keys@[j]@] by {
                            if j < k {
                                assert(keys_view(keys@)[j] == oldkeys[j]);
                                assert(keys@[j]@ != partition@);
                            } else if j > k {
                                assert(keys_view(keys@)[j] == oldkeys[j - 1]);
                                assert(keys@[j]@ != partition@);
                            }
                        }
                    }
                }
            },
        }
        i = i + 1;
    }
    assert(lv.take(ls.len() as int) =~= lv);
    let mut out: Vec<(String, u32)> = Vec::new();
    let mut j: usize = 0;
    while j < keys.len()
        invariant
            keys.len() == counts.len(),
            j <= keys.len(),
            out@.len() == j,
            forall|k: int| 0 <= k < j ==> (#[trigger] out@[k]).0@ == keys@[k]@ && out@[k].1 == counts@[k],
        decreases keys.len() - j,
    {
        out.push((string_of(keys[j].as_slice()), counts[j]));
        j = j + 1;
    }
    assert(usage_keys(out@) =~= keys_view(keys@));
    proof {
        let m = usage_tally(lv);
        assert forall|k: int| 0 <= k < out@.len() implies m[(#[trigger] out@[k]).0@] == out@[k].1 by {
            assert(keys_view(keys@)[k] == keys@[k]@);
        }
        assert forall|p: Seq<char>| #[trigger] m.contains_key(p) implies m[p] <= u32::MAX by {
            assert(keys_view(keys@).contains(p));
            let k = choose|k: int| 0 <= k < keys_view(keys@).len() && keys_view(keys@)[k] == p;
            assert(keys@[k]@ == p);
        }
    }
    Some(out)
}

/// The count listed for `p`, or 0.
pub open spec fn usage_of(u: Seq<(String, u32)>, p: Seq<char>) -> int {
    if exists|i: int| 0 <= i < u.len() && u[i].0@ == p {
        u[choose|i: int| 0 <= i < u.len() && u[i].0@ == p].1 as int
    } else {
        0
    }
}

fn lookup_usage(u: &Vec<(String, u32)>, p: &[char]) -> (r: u32)
    requires
        strictly_sorted(usage_keys(u@)),
    ensures
        r == usage_of(u@, p@),
{
    let mut i: usize = 0;
    while i < u.len()
        invariant
            i <= u.len(),
            strictly_sorted(usage_keys(u@)),
            forall|k: int| 0 <= k < i ==> u@[k].0@ != p@,
        decreases u.len() - i,
    {
        let key = chars_of(u[i].0.as_str());
        if chars_eq(key.as_slice(), p) {
            proof {
                let w = choose|w: int| 0 <= w < u@.len() && u@[w].0@ == p@;
                if w != i {
                    assert(usage_keys(u@)[w] == usage_keys(u@)[i as int]);
                    if w < i {
                        assert(lex_lt(usage_keys(u@)[w], usage_keys(u@)[i as int]));
                    } else {
                        assert(lex_lt(usage_keys(u@)[i as int], usage_keys(u@)[w]));
                    }
                    lemma_lex_irreflexive(p@);
                }
            }
            return u[i].1;
        }
        i = i + 1;
    }
    0
}

/// The nodes of a partition that its group uses: the listed usage, at most
/// the partition's running nodes.
pub open spec fn group_used(a: PartitionResources, u: Seq<(String, u32)>) -> u32 {
    if usage_of(u, a.partition@) < a.running_nodes {
        usage_of(u, a.partition@) as u32
    } else {
        a.running_nodes
    }
}

/// Each row with the group usage that `u` lists for its partition.
pub open spec fn with_group_usage(rows: Seq<PartitionResources>, u: Seq<(String, u32)>) -> Seq<PartitionResources> {
    rows.map_values(|a: PartitionResources| PartitionResources {
        partition: a.partition,
        total_nodes: a.total_nodes,
        running_nodes: a.running_nodes,
        group_used_nodes: group_used(a, u),
        available_nodes: a.available_nodes,
    })
}

/// Records for each partition the nodes its group uses, at most its running nodes.
pub fn apply_group_usage(resources: Vec<PartitionResources>, usage: &Vec<(String, u32)>) -> (r: Vec<PartitionResources>)
    requires
        strictly_sorted(usage_keys(usage@)),
    ensures
        r@ == with_group_usage(resources@, usage@),
{
    let mut out: Vec<PartitionResources> = Vec::new();
    let mut rest = resources;
    let ghost all = rest@;
    let mut rev: Vec<PartitionResources> = Vec::new();
    while rest.len() > 0
        invariant
            rest@ + rev@.reverse() == all,
        decreases rest.len(),
    {
        let x = rest.pop().unwrap();
        rev.push(x);
        assert(rest@ + rev@.reverse() =~= all);
    }
    assert(rev@.reverse() =~= all);
    let n = rev.len();
    while rev.len() > 0
        invariant
            n == all.len(),
            strictly_sorted(usage_keys(usage@)),
            out@.len() + rev@.len() == n,
            forall|k: int| 0 <= k < rev@.len() ==> #[trigger] rev@[k] == all[n - 1 - k],
            forall|i: int| 0 <= i < out@.len() ==> #[trigger] out@[i] == with_group_usage(all, usage@)[i],
        decreases rev.len(),
    {
        let ghost idx = out@.len() as int;
        let x = rev.pop().unwrap();
        assert(x == all[idx]);
        let pc = chars_of(x.partition.as_str());
        let used = lookup_usage(usage, pc.as_slice());
        let g = if used < x.running_nodes {
            used
        } else {
            x.running_nodes
        };
        out.push(
            PartitionResources {
                partition: x.partition,
                total_nodes: x.total_nodes,
                running_nodes: x.running_nodes,
                group_used_nodes: g,
                available_nodes: x.available_nodes,
            },
        );
    }
    assert(out@ =~= with_group_usage(all, usage@));
    out
}

} // verus!

verus! {

// ---------------------------------------------------------------------------
// Display order
// ---------------------------------------------------------------------------

/// Partitions with more nodes first, then more available nodes, then by name.
pub open spec fn resource_order(a: PartitionResources, b: PartitionResources) -> Order {
    compare_int(b.total_nodes as int, a.total_nodes as int).tie_break(
        compare_int(b.available_nodes as int, a.available_nodes as int),
    ).tie_break(lex_order(a.partition@, b.partition@))
}

/// Every row comes no later than the rows after it.
pub open spec fn sorted_for_display(rows: Seq<PartitionResources>) -> bool {
    forall|i: int, j: int|
        0 <= i < j < rows.len() ==> resource_order(rows[i], rows[j]) != Order::Greater
}

pub proof fn lemma_lex_order_flip(a: Seq<char>, b: Seq<char>)
    ensures
        lex_order(a, b) == lex_order(b, a).flip(),
{
    lemma_lex_total(a, b);
    lemma_lex_asymmetric(a, b);
    lemma_lex_irreflexive(a);
}

pub proof fn lemma_resource_order_flip(a: PartitionResources, b: PartitionResources)
    ensures
        resource_order(a, b) == resource_order(b, a).flip(),
{
    lemma_lex_order_flip(a.partition@, b.partition@);
}

pub proof fn lemma_lex_order_trans(a: Seq<char>, b: Seq<char>, c: Seq<char>)
    ensures
        lex_order(a, b) != Order::Greater && lex_order(b, c) != Order::Greater ==> lex_order(a, c)
            != Order::Greater,
        lex_order(a, b) == Order::Less && lex_order(b, c) != Order::Greater ==> lex_order(a, c)
            == Order::Less,
{
    lemma_lex_order_flip(a, b);
    lemma_lex_order_flip(b, c);
    lemma_lex_order_flip(a, c);
    lemma_lex_irreflexive(a);
    if lex_lt(a, b) && lex_lt(b, c) {
        lemma_lex_transitive(a, b, c);
    }
}

pub proof fn lemma_resource_order_trans(a: PartitionResources, b: PartitionResources, c: PartitionResources)
    ensures
        resource_order(a, b) != Order::Greater && resource_order(b, c) != Order::Greater ==> resource_order(a, c)
            != Order::Greater,
        resource_order(a, b) == Order::Less && resource_order(b, c) != Order::Greater ==> resource_order(a, c)
            == Order::Less,
{
    lemma_lex_order_trans(a.partition@, b.partition@, c.partition@);
}

fn resource_compare(a: &PartitionResources, b: &PartitionResources) -> (r: Order)
    ensures
        r == resource_order(*a, *b),
{
    let t = compare_u64(b.total_nodes as u64, a.total_nodes as u64);
    if t != Order::Equal {
        return t;
    }
    let v = compare_u64(b.available_nodes as u64, a.available_nodes as u64);
    if v != Order::Equal {
        return v;
    }
    let pa = chars_of(a.partition.as_str());
    let pb = chars_of(b.partition.as_str());
    lex_compare(pa.as_slice(), pb.as_slice())
}

/// Orders partitions for display: more nodes first, then more available
/// nodes, then by name; rows that compare equal keep their order.
pub fn sort_resources(resources: Vec<PartitionResources>) -> (r: Vec<PartitionResources>)
    ensures
        r@.to_multiset() == resources@.to_multiset(),
        sorted_for_display(r@),
{
    let ghost all = resources@;
    let mut rest = resources;
    let mut rev: Vec<PartitionResources> = Vec::new();
    while rest.len() > 0
        invariant
            rest@ + rev@.reverse() == all,
        decreases rest.len(),
    {
        let x = rest.pop().unwrap();
        rev.push(x);
        assert(rest@ + rev@.reverse() =~= all);
    }
    assert(rev@.reverse() =~= all);
    let n = rev.len();
    let mut out: Vec<PartitionResources> = Vec::new();
    assert(all.take(0) =~= Seq::<PartitionResources>::empty());
    while rev.len() > 0
        invariant
            n == all.len(),
            out@.len() + rev@.len() == n,
            forall|k: int| 0 <= k < rev@.len() ==> #[trigger] rev@[k] == all[n - 1 - k],
            out@.to_multiset() == all.take(out@.len() as int).to_multiset(),
            sorted_for_display(out@),
        decreases rev.len(),
    {
        let ghost idx = out@.len() as int;
        let x = rev.pop().unwrap();
        assert(x == all[idx]);
        let mut k: usize = 0;
        while k < out.len() && resource_compare(&x, &out[k]) != Order::Less
            invariant
                k <= out@.len(),
                forall|i: int| 0 <= i < k ==> resource_order(x, #[trigger] out@[i]) != Order::Less,
            decreases out@.len() - k,
        {
            k = k + 1;
        }
        let ghost before = out@;
        proof {
            assert forall|i: int| k <= i < before.len() implies resource_order(x, #[trigger] before[i])
                == Order::Less by {
                lemma_resource_order_trans(x, before[k as int], before[i]);
            }
        }
        out.insert(k, x);
        proof {
            assert(out@ == before.insert(k as int, x));
            assert(all.take(idx + 1) =~= all.take(idx).push(x));
            assert forall|i: int, j: int| 0 <= i < j < out@.len() implies resource_order(out@[i], out@[j])
                != Order::Greater by {
                if j < k {
                } else if j == k {
                    lemma_resource_order_flip(before[i], x);
                } else if i < k {
                    assert(out@[j] == before[j - 1]);
                    lemma_resource_order_flip(before[i], x);
                    lemma_resource_order_trans(before[i], x, before[j - 1]);
                } else if i == k {
                    assert(out@[j] == before[j - 1]);
                } else {
                    assert(out@[i] == before[i - 1]);
                    assert(out@[j] == before[j - 1]);
                }
            }
        }
    }
    assert(all.take(n as int) =~= all);
    out
}

/// The rows that the `sinfo` and `squeue` summaries give together: node counts
/// per partition with the group's usage, in display order.
pub fn combine_resources(sinfo_text: &str, group_text: &str) -> (r: Vec<PartitionResources>)
    requires
        tally_fits(sinfo_tally(lines(sinfo_text@))),
        usage_fits(usage_tally(lines(group_text@))),
    ensures
        sorted_for_display(r@),
        exists|rows: Seq<PartitionResources>, u: Seq<(String, u32)>| {
            &&& rows_match_tally(rows, sinfo_tally(lines(sinfo_text@)))
            &&& usage_matches(u, usage_tally(lines(group_text@)))
            &&& r@.to_multiset() == with_group_usage(rows, u).to_multiset()
        },
{
    let rows = parse_sinfo_plain(sinfo_text);
    let usage = parse_group_usage(group_text);
    let ghost base = rows@;
    let with_usage = apply_group_usage(rows, &usage);
    let r = sort_resources(with_usage);
    assert(rows_match_tally(base, sinfo_tally(lines(sinfo_text@))) && usage_matches(usage@, usage_tally(lines(group_text@))) && r@.to_multiset() == with_group_usage(base, usage@).to_multiset());
    r
}

/// The rows that the `sinfo` and `squeue` summaries give together, as
/// [`combine_resources`] gives them; none where a count passes `u32::MAX`.
pub fn try_combine_resources(sinfo_text: &str, group_text: &str) -> (r: Option<Vec<PartitionResources>>)
    ensures
        r is Some <==> (tally_fits(sinfo_tally(lines(sinfo_text@))) && usage_fits(usage_tally(lines(group_text@)))),
        r matches Some(v) ==> sorted_for_display(v@),
        r matches Some(v) ==> exists|rows: Seq<PartitionResources>, u: Seq<(String, u32)>| {
            &&& rows_match_tally(rows, sinfo_tally(lines(sinfo_text@)))
            &&& usage_matches(u, usage_tally(lines(group_text@)))
            &&& v@.to_multiset() == with_group_usage(rows, u).to_multiset()
        },
{
    match (try_parse_sinfo_plain(sinfo_text), try_parse_group_usage(group_text)) {
        (Some(rows), Some(usage)) => {
            let ghost base = rows@;
            let with_usage = apply_group_usage(rows, &usage);
            let r = sort_resources(with_usage);
            assert(rows_match_tally(base, sinfo_tally(lines(sinfo_text@))) && usage_matches(usage@, usage_tally(lines(group_text@))) && r@.to_multiset() == with_group_usage(base, usage@).to_multiset());
            Some(r)
        },
        _ => None,
    }
}

} // verus!
