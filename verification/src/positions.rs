//! Saved screen positions of the movable tables (`tables.json`): one
//! position per table name, written on every move and merged in batches.
use vstd::prelude::*;

verus! {

broadcast use vstd::string::group_string_axioms;

/// Positions by table name (physical pixels).
pub struct TablePositions {
    entries: Vec<(String, i32, i32)>,
}

pub open spec fn names_distinct(es: Seq<(String, i32, i32)>) -> bool {
    forall|i: int, j: int| 0 <= i < j < es.len() ==> (#[trigger] es[i]).0@ != (#[trigger] es[j]).0@
}

pub open spec fn has_name(es: Seq<(String, i32, i32)>, k: Seq<char>) -> bool {
    exists|i: int| 0 <= i < es.len() && (#[trigger] es[i]).0@ == k
}

pub open spec fn index_of(es: Seq<(String, i32, i32)>, k: Seq<char>) -> int {
    choose|i: int| 0 <= i < es.len() && (#[trigger] es[i]).0@ == k
}

/// The positions as a map from table name to position.
pub open spec fn positions_map(es: Seq<(String, i32, i32)>) -> Map<Seq<char>, (i32, i32)> {
    Map::new(|k: Seq<char>| has_name(es, k), |k: Seq<char>| (es[index_of(es, k)].1, es[index_of(es, k)].2))
}

proof fn lemma_index_of(es: Seq<(String, i32, i32)>, k: Seq<char>, i: int)
    requires
        names_distinct(es),
        0 <= i < es.len(),
        es[i].0@ == k,
    ensures
        index_of(es, k) == i,
{
    assert(has_name(es, k));
    let j = index_of(es, k);
    if j != i {
        if j < i {
            assert(es[j].0@ != es[i].0@);
        } else {
            assert(es[i].0@ != es[j].0@);
        }
    }
}

impl View for TablePositions {
    type V = Map<Seq<char>, (i32, i32)>;

    closed spec fn view(&self) -> Map<Seq<char>, (i32, i32)> {
        positions_map(self.entries@)
    }
}

impl TablePositions {
    /// No table name occurs twice.
    pub closed spec fn wf(&self) -> bool {
        names_distinct(self.entries@)
    }

    /// No saved positions.
    pub fn new() -> (p: TablePositions)
        ensures
            p.wf(),
            p@ == Map::<Seq<char>, (i32, i32)>::empty(),
    {
        let p = TablePositions { entries: Vec::new() };
        assert(p@ =~= Map::<Seq<char>, (i32, i32)>::empty());
        p
    }

    fn find(&self, name: &str) -> (r: Option<usize>)
        requires
            self.wf(),
        ensures
            match r {
                Some(i) => i < self.entries@.len() && self.entries@[i as int].0@ == name@,
                None => !has_name(self.entries@, name@),
            },
    {
        let mut i: usize = 0;
        while i < self.entries.len()
            invariant
                i <= self.entries@.len(),
                forall|j: int| 0 <= j < i ==> (#[trigger] self.entries@[j]).0@ != name@,
            decreases self.entries@.len() - i,
        {
            if crate::text::str_equal(self.entries[i].0.as_str(), name) {
                return Some(i);
            }
            i += 1;
        }
        None
    }

    /// The saved position of a table.
    pub fn get(&self, name: &str) -> (r: Option<(i32, i32)>)
        requires
            self.wf(),
        ensures
            r == if self@.dom().contains(name@) {
                Some(self@[name@])
            } else {
                None::<(i32, i32)>
            },
    {
        match self.find(name) {
            Some(i) => {
                proof {
                    lemma_index_of(self.entries@, name@, i as int);
                }
                Some((self.entries[i].1, self.entries[i].2))
            },
            None => None,
        }
    }

    /// Saves (or replaces) the position of a table.
    pub fn insert(&mut self, name: String, x: i32, y: i32)
        requires
            old(self).wf(),
        ensures
            final(self).wf(),
            final(self)@ == old(self)@.insert(name@, (x, y)),
    {
        let ghost old_es = self.entries@;
        match self.find(name.as_str()) {
            Some(i) => {
                let ghost k = name@;
                self.entries.set(i, (name, x, y));
                proof {
                    let es = self.entries@;
                    assert forall|a: int, b: int| 0 <= a < b < es.len() implies (#[trigger] es[a]).0@
                        != (#[trigger] es[b]).0@ by {
                        if a == i {
                            assert(old_es[a].0@ == k);
                        } else if b == i {
                            assert(old_es[b].0@ == k);
                        }
                    }
                    assert forall|key: Seq<char>| has_name(es, key) == has_name(old_es, key) by {
                        if has_name(es, key) {
                            let j = choose|j: int| 0 <= j < es.len() && (#[trigger] es[j]).0@ == key;
                            assert(old_es[j].0@ == key);
                        }
                        if has_name(old_es, key) {
                            let j = choose|j: int| 0 <= j < old_es.len() && (#[trigger] old_es[j]).0@ == key;
                            assert(es[j].0@ == key);
                        }
                    }
                    assert forall|key: Seq<char>| has_name(es, key) && key != k implies index_of(es, key)
                        == index_of(old_es, key) by {
                        let j = index_of(old_es, key);
                        lemma_index_of(old_es, key, j);
                        assert(es[j].0@ == key);
                        lemma_index_of(es, key, j);
                    }
                    lemma_index_of(es, k, i as int);
                    assert(self@ =~= positions_map(old_es).insert(k, (x, y)));
                }
            },
            None => {
                let ghost k = name@;
                self.entries.push((name, x, y));
                proof {
                    let es = self.entries@;
                    let n = old_es.len() as int;
                    assert forall|a: int, b: int| 0 <= a < b < es.len() implies (#[trigger] es[a]).0@
                        != (#[trigger] es[b]).0@ by {
                        if b == n {
                            assert(es[a] == old_es[a]);
                        } else {
                            assert(es[a] == old_es[a] && es[b] == old_es[b]);
                        }
                    }
                    assert forall|key: Seq<char>| has_name(es, key) == (has_name(old_es, key) || key
                        == k) by {
                        if has_name(es, key) {
                            let j = choose|j: int| 0 <= j < es.len() && (#[trigger] es[j]).0@ == key;
                            if j < n {
                                assert(old_es[j] == es[j]);
                            }
                        }
                        if has_name(old_es, key) {
                            let j = choose|j: int| 0 <= j < old_es.len() && (#[trigger] old_es[j]).0@ == key;
                            assert(es[j] == old_es[j]);
                        }
                        if key == k {
                            assert(es[n].0@ == key);
                        }
                    }
                    assert forall|key: Seq<char>| has_name(old_es, key) implies index_of(es, key)
                        == index_of(old_es, key) by {
                        let j = index_of(old_es, key);
                        lemma_index_of(old_es, key, j);
                        assert(es[j] == old_es[j]);
                        lemma_index_of(es, key, j);
                    }
                    lemma_index_of(es, k, n);
                    assert(self@ =~= positions_map(old_es).insert(k, (x, y)));
                }
            },
        }
    }

    /// All saved positions, in storage order (for writing the file).
    pub fn entries(&self) -> (r: &Vec<(String, i32, i32)>)
        ensures
            positions_map(r@) == self@,
            self.wf() ==> names_distinct(r@),
    {
        &self.entries
    }

    /// Positions read from the file, one pair at a time (a later pair for
    /// the same name replaces an earlier one).
    pub fn from_pairs(pairs: Vec<(String, i32, i32)>) -> (p: TablePositions)
        ensures
            p.wf(),
            p@ == pairs_map(pairs@),
    {
        let mut p = TablePositions::new();
        let mut i: usize = 0;
        let n = pairs.len();
        let mut rest = pairs;
        let ghost all = rest@;
        proof {
            assert(all.take(0) =~= Seq::<(String, i32, i32)>::empty());
        }
        while i < n
            invariant
                i <= n,
                n == all.len(),
                rest@ == all,
                p.wf(),
                p@ == pairs_map(all.take(i as int)),
            decreases n - i,
        {
            let name = rest[i].0.clone();
            let x = rest[i].1;
            let y = rest[i].2;
            proof {
                assert(all.take(i + 1).drop_last() =~= all.take(i as int));
            }
            p.insert(name, x, y);
            i += 1;
        }
        proof {
            assert(all.take(n as int) =~= all);
        }
        p
    }

    /// Writes every pending position over the saved ones.
    pub fn merge(&mut self, pending: &TablePositions)
        requires
            old(self).wf(),
            pending.wf(),
        ensures
            final(self).wf(),
            final(self)@ == old(self)@.union_prefer_right(pending@),
    {
        let ghost start = self@;
        let ghost pes = pending.entries@;
        let mut i: usize = 0;
        while i < pending.entries.len()
            invariant
                i <= pes.len(),
                pes == pending.entries@,
                names_distinct(pes),
                self.wf(),
                self@ == start.union_prefer_right(positions_map(pes.take(i as int))),
            decreases pes.len() - i,
        {
            let name = pending.entries[i].0.clone();
            let x = pending.entries[i].1;
            let y = pending.entries[i].2;
            proof {
                let t = pes.take(i as int);
                let t1 = pes.take(i + 1);
                assert(names_distinct(t1)) by {
                    assert forall|a: int, b: int| 0 <= a < b < t1.len() implies (#[trigger] t1[a]).0@
                        != (#[trigger] t1[b]).0@ by {
                        assert(t1[a] == pes[a] && t1[b] == pes[b]);
                    }
                }
                assert(names_distinct(t)) by {
                    assert forall|a: int, b: int| 0 <= a < b < t.len() implies (#[trigger] t[a]).0@
                        != (#[trigger] t[b]).0@ by {
                        assert(t[a] == pes[a] && t[b] == pes[b]);
                    }
                }
                assert forall|key: Seq<char>| has_name(t1, key) == (has_name(t, key) || key
                    == pes[i as int].0@) by {
                    if has_name(t1, key) {
                        let j = choose|j: int| 0 <= j < t1.len() && (#[trigger] t1[j]).0@ == key;
                        if j < i {
                            assert(t[j] == t1[j]);
                        }
                    }
                    if has_name(t, key) {
                        let j = choose|j: int| 0 <= j < t.len() && (#[trigger] t[j]).0@ == key;
                        assert(t1[j] == t[j]);
                    }
                    if key == pes[i as int].0@ {
                        assert(t1[i as int].0@ == key);
                    }
                }
                assert forall|key: Seq<char>| has_name(t, key) implies index_of(t1, key) == index_of(
                    t,
                    key,
                ) by {
                    let j = index_of(t, key);
                    lemma_index_of(t, key, j);
                    assert(t1[j] == t[j]);
                    lemma_index_of(t1, key, j);
                }
                lemma_index_of(t1, pes[i as int].0@, i as int);
                if has_name(t, pes[i as int].0@) {
                    let j = choose|j: int| 0 <= j < t.len() && (#[trigger] t[j]).0@ == pes[i as int].0@;
                    assert(pes[j].0@ != pes[i as int].0@);
                }
                assert(positions_map(t1) =~= positions_map(t).insert(pes[i as int].0@, (x, y)));
            }
            self.insert(name, x, y);
            proof {
                assert(self@ =~= start.union_prefer_right(positions_map(pes.take(i + 1))));
            }
            i += 1;
        }
        proof {
            assert(pes.take(pes.len() as int) =~= pes);
        }
    }
}

/// Positions from a list of pairs, a later pair winning.
pub open spec fn pairs_map(pairs: Seq<(String, i32, i32)>) -> Map<Seq<char>, (i32, i32)>
    decreases pairs.len(),
{
    if pairs.len() == 0 {
        Map::empty()
    } else {
        pairs_map(pairs.drop_last()).insert(pairs.last().0@, (pairs.last().1, pairs.last().2))
    }
}

/// Saves the position a table was moved to (the positions read from the
/// file, then written back).
pub fn persist_table_position(positions: &mut TablePositions, name: &str, x: i32, y: i32)
    requires
        old(positions).wf(),
    ensures
        final(positions).wf(),
        final(positions)@ == old(positions)@.insert(name@, (x, y)),
{
    positions.insert(name.to_owned(), x, y);
}

/// A position read back after it was saved is the one saved; other
/// tables keep theirs.
pub proof fn law_read_after_write(before: Map<Seq<char>, (i32, i32)>, name: Seq<char>, x: i32, y: i32, other: Seq<char>)
    requires
        other != name,
    ensures
        before.insert(name, (x, y)).dom().contains(name),
        before.insert(name, (x, y))[name] == (x, y),
        before.insert(name, (x, y)).dom().contains(other) == before.dom().contains(other),
        before.dom().contains(other) ==> before.insert(name, (x, y))[other] == before[other],
{
}

/// Flushing parked moves keeps, for each table, the last move parked for
/// it, and leaves the tables that did not move as they were.
pub proof fn law_flush_keeps_latest_move(saved: Map<Seq<char>, (i32, i32)>, parked: Seq<(String, i32, i32)>, name: Seq<char>)
    ensures
        saved.union_prefer_right(pairs_map(parked)).dom().contains(name) == (saved.dom().contains(
            name,
        ) || pairs_map(parked).dom().contains(name)),
        pairs_map(parked).dom().contains(name) ==> saved.union_prefer_right(pairs_map(parked))[name]
            == pairs_map(parked)[name],
        !pairs_map(parked).dom().contains(name) && saved.dom().contains(name)
            ==> saved.union_prefer_right(pairs_map(parked))[name] == saved[name],
        parked.len() > 0 && parked.last().0@ == name ==> pairs_map(parked)[name] == (
        parked.last().1,
        parked.last().2,
        ),
{
}

} // verus!
