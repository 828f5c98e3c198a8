//! Per-process cache of extracted icons, keyed by absolute file path, with
//! a five-minute lifetime and a bounded size (the oldest entries are
//! evicted in a batch when it is full). Times are nanoseconds on a
//! monotonic clock.
use vstd::prelude::*;

verus! {

broadcast use vstd::string::group_string_axioms;

/// How long a cached icon is used (5 min, in ns).
pub const ICON_TTL_NS: u64 = 300_000_000_000;
/// Size at which an insert first evicts.
pub const ICON_CACHE_MAX: usize = 256;
/// How many of the oldest entries one eviction removes.
pub const ICON_CACHE_EVICT: usize = 64;

/// One cached lookup: path, capture time, icon (a failed lookup is cached
/// too, as `None`).
pub struct CachedIcon {
    pub path: String,
    pub captured_at: u64,
    pub icon: Option<String>,
}

pub struct IconCache {
    entries: Vec<CachedIcon>,
}

pub open spec fn icon_view(i: Option<String>) -> Option<Seq<char>> {
    match i {
        Some(s) => Some(s@),
        None => None,
    }
}

/// The model of an entry.
pub open spec fn entry_view(e: CachedIcon) -> (Seq<char>, u64, Option<Seq<char>>) {
    (e.path@, e.captured_at, icon_view(e.icon))
}

pub open spec fn paths_distinct(es: Seq<(Seq<char>, u64, Option<Seq<char>>)>) -> bool {
    forall|i: int, j: int| 0 <= i < j < es.len() ==> (#[trigger] es[i]).0 != (#[trigger] es[j]).0
}

/// Index of the oldest entry (the first one among equally old entries).
pub open spec fn oldest_index(es: Seq<(Seq<char>, u64, Option<Seq<char>>)>) -> int
    decreases es.len(),
{
    if es.len() <= 1 {
        0
    } else {
        let i = oldest_index(es.drop_last());
        if es.last().1 < es[i].1 {
            es.len() - 1
        } else {
            i
        }
    }
}

/// The entries left after removing the `k` oldest, one at a time.
pub open spec fn evict_oldest(es: Seq<(Seq<char>, u64, Option<Seq<char>>)>, k: nat) -> Seq<(Seq<char>, u64, Option<Seq<char>>)>
    decreases k,
{
    if k == 0 || es.len() == 0 {
        es
    } else {
        evict_oldest(es.remove(oldest_index(es)), (k - 1) as nat)
    }
}

/// The entries with `path` set to a fresh capture: replaced in place when
/// present, else added at the end.
pub open spec fn put(es: Seq<(Seq<char>, u64, Option<Seq<char>>)>, e: (Seq<char>, u64, Option<Seq<char>>)) -> Seq<(Seq<char>, u64, Option<Seq<char>>)> {
    if exists|i: int| 0 <= i < es.len() && es[i].0 == e.0 {
        let i = choose|i: int| 0 <= i < es.len() && es[i].0 == e.0;
        es.update(i, e)
    } else {
        es.push(e)
    }
}

/// The cache after an insert: when it is full, the oldest entries are
/// evicted first.
pub open spec fn after_insert(es: Seq<(Seq<char>, u64, Option<Seq<char>>)>, e: (Seq<char>, u64, Option<Seq<char>>)) -> Seq<(Seq<char>, u64, Option<Seq<char>>)> {
    let kept = if es.len() >= ICON_CACHE_MAX {
        evict_oldest(es, ICON_CACHE_EVICT as nat)
    } else {
        es
    };
    put(kept, e)
}

/// What a lookup finds: the cached icon when the path is cached and its
/// capture is less than the lifetime old.
pub open spec fn lookup_result(es: Seq<(Seq<char>, u64, Option<Seq<char>>)>, path: Seq<char>, now: u64) -> Option<Option<Seq<char>>> {
    if exists|i: int| 0 <= i < es.len() && es[i].0 == path {
        let i = choose|i: int| 0 <= i < es.len() && es[i].0 == path;
        let elapsed = if now >= es[i].1 {
            now - es[i].1
        } else {
            0
        };
        if elapsed < ICON_TTL_NS {
            Some(es[i].2)
        } else {
            None
        }
    } else {
        None
    }
}

proof fn lemma_oldest_index(es: Seq<(Seq<char>, u64, Option<Seq<char>>)>)
    requires
        es.len() > 0,
    ensures
        0 <= oldest_index(es) < es.len(),
        forall|j: int| 0 <= j < es.len() ==> es[oldest_index(es)].1 <= #[trigger] es[j].1,
    decreases es.len(),
{
    if es.len() > 1 {
        let d = es.drop_last();
        lemma_oldest_index(d);
        assert forall|j: int| 0 <= j < es.len() implies es[oldest_index(es)].1 <= #[trigger] es[j].1 by {
            if j < es.len() - 1 {
                assert(es[j] == d[j]);
            }
        }
    }
}

proof fn lemma_remove_distinct(es: Seq<(Seq<char>, u64, Option<Seq<char>>)>, i: int)
    requires
        paths_distinct(es),
        0 <= i < es.len(),
    ensures
        paths_distinct(es.remove(i)),
{
    let r = es.remove(i);
    assert forall|a: int, b: int| 0 <= a < b < r.len() implies (#[trigger] r[a]).0 != (#[trigger] r[b]).0 by {
        let a0 = if a < i { a } else { a + 1 };
        let b0 = if b < i { b } else { b + 1 };
        assert(r[a] == es[a0] && r[b] == es[b0]);
    }
}

proof fn lemma_evict_distinct(es: Seq<(Seq<char>, u64, Option<Seq<char>>)>, k: nat)
    requires
        paths_distinct(es),
    ensures
        paths_distinct(evict_oldest(es, k)),
        evict_oldest(es, k).len() == if es.len() >= k { es.len() - k } else { 0 },
    decreases k,
{
    if k > 0 && es.len() > 0 {
        lemma_oldest_index(es);
        lemma_remove_distinct(es, oldest_index(es));
        lemma_evict_distinct(es.remove(oldest_index(es)), (k - 1) as nat);
    }
}

proof fn lemma_remove_subset(es: Seq<(Seq<char>, u64, Option<Seq<char>>)>, o: int)
    requires
        0 <= o < es.len(),
    ensures
        forall|x: (Seq<char>, u64, Option<Seq<char>>)| es.remove(o).contains(x) ==> es.contains(x),
        forall|x: (Seq<char>, u64, Option<Seq<char>>)|
            es.contains(x) && x != es[o] ==> es.remove(o).contains(x),
{
    let r = es.remove(o);
    assert forall|x: (Seq<char>, u64, Option<Seq<char>>)| r.contains(x) implies es.contains(x) by {
        let j = choose|j: int| 0 <= j < r.len() && r[j] == x;
        if j < o {
            assert(es[j] == x);
        } else {
            assert(es[j + 1] == x);
        }
    }
    assert forall|x: (Seq<char>, u64, Option<Seq<char>>)| es.contains(x) && x != es[o] implies r.contains(x) by {
        let j = choose|j: int| 0 <= j < es.len() && es[j] == x;
        if j < o {
            assert(r[j] == x);
        } else {
            assert(j != o);
            assert(r[j - 1] == x);
        }
    }
}

/// Evicting keeps only entries that were there, and every entry it
/// removed is at most as new as every entry it kept.
proof fn lemma_evict_oldest_facts(es: Seq<(Seq<char>, u64, Option<Seq<char>>)>, k: nat)
    requires
        paths_distinct(es),
    ensures
        forall|x: (Seq<char>, u64, Option<Seq<char>>)| evict_oldest(es, k).contains(x) ==> es.contains(x),
        forall|x: (Seq<char>, u64, Option<Seq<char>>), y: (Seq<char>, u64, Option<Seq<char>>)|
            #![trigger es.contains(x), evict_oldest(es, k).contains(y)]
            es.contains(x) && !evict_oldest(es, k).contains(x) && evict_oldest(es, k).contains(y)
                ==> x.1 <= y.1,
    decreases k,
{
    if k > 0 && es.len() > 0 {
        let o = oldest_index(es);
        lemma_oldest_index(es);
        let r = es.remove(o);
        lemma_remove_distinct(es, o);
        lemma_remove_subset(es, o);
        lemma_evict_oldest_facts(r, (k - 1) as nat);
        let kept = evict_oldest(r, (k - 1) as nat);
        assert(evict_oldest(es, k) == kept);
        assert forall|x: (Seq<char>, u64, Option<Seq<char>>), y: (Seq<char>, u64, Option<Seq<char>>)|
            es.contains(x) && !kept.contains(x) && kept.contains(y) implies x.1 <= y.1 by {
            assert(es.contains(y));
            let jy = choose|j: int| 0 <= j < es.len() && es[j] == y;
            assert(es[o].1 <= es[jy].1);
            if x != es[o] {
                assert(r.contains(x));
            }
        }
    }
}

impl IconCache {
    pub closed spec fn entries_view(&self) -> Seq<(Seq<char>, u64, Option<Seq<char>>)> {
        self.entries@.map_values(|e: CachedIcon| entry_view(e))
    }

    /// No path is cached twice.
    pub open spec fn wf(&self) -> bool {
        paths_distinct(self.entries_view())
    }

    pub fn new() -> (c: IconCache)
        ensures
            c.entries_view().len() == 0,
            c.wf(),
    {
        let c = IconCache { entries: Vec::new() };
        assert(c.entries_view() =~= Seq::<(Seq<char>, u64, Option<Seq<char>>)>::empty());
        c
    }

    pub fn len(&self) -> (n: usize)
        ensures
            n == self.entries_view().len(),
    {
        self.entries.len()
    }

    fn find(&self, path: &str) -> (r: Option<usize>)
        ensures
            match r {
                Some(i) => i < self.entries_view().len() && self.entries_view()[i as int].0 == path@,
                None => forall|j: int|
                    0 <= j < self.entries_view().len() ==> self.entries_view()[j].0 != path@,
            },
    {
        let ghost v = self.entries_view();
        let mut i: usize = 0;
        while i < self.entries.len()
            invariant
                i <= self.entries@.len(),
                v == self.entries_view(),
                v.len() == self.entries@.len(),
                forall|j: int| 0 <= j < i ==> v[j].0 != path@,
            decreases self.entries@.len() - i,
        {
            assert(v[i as int] == entry_view(self.entries@[i as int]));
            if crate::text::str_equal(self.entries[i].path.as_str(), path) {
                return Some(i);
            }
            i += 1;
        }
        None
    }

    /// The cached icon of `path`, if it was captured less than the
    /// lifetime before `now`.
    pub fn lookup(&self, path: &str, now: u64) -> (r: Option<Option<String>>)
        requires
            self.wf(),
        ensures
            match r {
                Some(i) => lookup_result(self.entries_view(), path@, now) == Some(icon_view(i)),
                None => lookup_result(self.entries_view(), path@, now) is None,
            },
    {
        let ghost v = self.entries_view();
        match self.find(path) {
            Some(i) => {
                proof {
                    let c = choose|c: int| 0 <= c < v.len() && v[c].0 == path@;
                    if c != i {
                        if c < i {
                            assert(v[c].0 != v[i as int].0);
                        } else {
                            assert(v[i as int].0 != v[c].0);
                        }
                    }
                    assert(v[i as int] == entry_view(self.entries@[i as int]));
                }
                let e = &self.entries[i];
                let elapsed = if now >= e.captured_at {
                    now - e.captured_at
                } else {
                    0
                };
                if elapsed < ICON_TTL_NS {
                    Some(crate::peek::clone_opt_string(&e.icon))
                } else {
                    None
                }
            },
            None => None,
        }
    }

    fn oldest(&self) -> (i: usize)
        requires
            self.entries@.len() > 0,
        ensures
            i == oldest_index(self.entries_view()),
    {
        let ghost v = self.entries_view();
        let mut best: usize = 0;
        let mut j: usize = 1;
        while j < self.entries.len()
            invariant
                1 <= j <= self.entries@.len(),
                v == self.entries_view(),
                v.len() == self.entries@.len(),
                best == oldest_index(v.take(j as int)),
                best < j,
            decreases self.entries@.len() - j,
        {
            proof {
                let t = v.take(j + 1);
                assert(t.drop_last() =~= v.take(j as int));
                assert(t.last() == v[j as int]);
                assert(t[best as int] == v[best as int]);
                assert(v[j as int] == entry_view(self.entries@[j as int]));
                assert(v[best as int] == entry_view(self.entries@[best as int]));
            }
            if self.entries[j].captured_at < self.entries[best].captured_at {
                best = j;
            }
            j += 1;
        }
        proof {
            assert(v.take(v.len() as int) =~= v);
        }
        best
    }

    fn evict(&mut self, k: usize)
        requires
            old(self).wf(),
        ensures
            final(self).wf(),
            final(self).entries_view() == evict_oldest(old(self).entries_view(), k as nat),
        decreases k,
    {
        if k == 0 || self.entries.len() == 0 {
            return;
        }
        let i = self.oldest();
        let ghost before = self.entries_view();
        proof {
            lemma_oldest_index(before);
        }
        self.entries.remove(i);
        proof {
            assert(self.entries_view() =~= before.remove(i as int));
            lemma_remove_distinct(before, i as int);
        }
        self.evict(k - 1);
    }

    /// Caches the icon of `path` captured at `now`: when the cache is full,
    /// the oldest entries go first; an entry for the same path is replaced.
    pub fn insert(&mut self, path: String, icon: Option<String>, now: u64)
        requires
            old(self).wf(),
        ensures
            final(self).wf(),
            final(self).entries_view() == after_insert(
                old(self).entries_view(),
                (path@, now, icon_view(icon)),
            ),
    {
        let ghost start = self.entries_view();
        if self.entries.len() >= ICON_CACHE_MAX {
            self.evict(ICON_CACHE_EVICT);
        }
        let ghost kept = self.entries_view();
        let e = CachedIcon { path, captured_at: now, icon };
        let ghost ev = entry_view(e);
        match self.find(e.path.as_str()) {
            Some(i) => {
                self.entries.set(i, e);
                proof {
                    let c = choose|c: int| 0 <= c < kept.len() && kept[c].0 == ev.0;
                    if c != i {
                        if c < i {
                            assert(kept[c].0 != kept[i as int].0);
                        } else {
                            assert(kept[i as int].0 != kept[c].0);
                        }
                    }
                    assert(self.entries_view() =~= kept.update(i as int, ev));
                    let v = self.entries_view();
                    assert forall|a: int, b: int| 0 <= a < b < v.len() implies (#[trigger] v[a]).0
                        != (#[trigger] v[b]).0 by {
                        if a != i && b != i {
                            assert(v[a] == kept[a] && v[b] == kept[b]);
                        } else if a == i {
                            assert(v[b] == kept[b]);
                            assert(kept[a].0 != kept[b].0);
                        } else {
                            assert(v[a] == kept[a]);
                            assert(kept[a].0 != kept[b].0);
                        }
                    }
                }
            },
            None => {
                self.entries.push(e);
                proof {
                    assert(self.entries_view() =~= kept.push(ev));
                    let v = self.entries_view();
                    assert forall|a: int, b: int| 0 <= a < b < v.len() implies (#[trigger] v[a]).0
                        != (#[trigger] v[b]).0 by {
                        if b == kept.len() {
                            assert(v[a] == kept[a]);
                        } else {
                            assert(v[a] == kept[a] && v[b] == kept[b]);
                        }
                    }
                }
            },
        }
    }
}

/// The cache never holds more than `ICON_CACHE_MAX` entries, and an icon
/// just cached is found again while it is fresh.
pub proof fn law_cache_bounded_and_fresh(es: Seq<(Seq<char>, u64, Option<Seq<char>>)>, e: (Seq<char>, u64, Option<Seq<char>>), later: u64)
    requires
        paths_distinct(es),
        es.len() <= ICON_CACHE_MAX,
        e.1 <= later,
        later - e.1 < ICON_TTL_NS,
    ensures
        after_insert(es, e).len() <= ICON_CACHE_MAX,
        paths_distinct(after_insert(es, e)),
        lookup_result(after_insert(es, e), e.0, later) == Some(e.2),
{
    let kept = if es.len() >= ICON_CACHE_MAX {
        evict_oldest(es, ICON_CACHE_EVICT as nat)
    } else {
        es
    };
    lemma_evict_distinct(es, ICON_CACHE_EVICT as nat);
    let r = put(kept, e);
    if exists|i: int| 0 <= i < kept.len() && kept[i].0 == e.0 {
        let i = choose|i: int| 0 <= i < kept.len() && kept[i].0 == e.0;
        assert(r == kept.update(i, e));
        assert forall|a: int, b: int| 0 <= a < b < r.len() implies (#[trigger] r[a]).0 != (#[trigger] r[b]).0 by {
            if a != i && b != i {
                assert(r[a] == kept[a] && r[b] == kept[b]);
            } else if a == i {
                assert(kept[a].0 != kept[b].0);
            } else {
                assert(kept[a].0 != kept[b].0);
            }
        }
        assert(r[i].0 == e.0);
        let c = choose|c: int| 0 <= c < r.len() && r[c].0 == e.0;
        if c != i {
            if c < i {
                assert(r[c].0 != r[i].0);
            } else {
                assert(r[i].0 != r[c].0);
            }
        }
    } else {
        assert(r == kept.push(e));
        assert forall|a: int, b: int| 0 <= a < b < r.len() implies (#[trigger] r[a]).0 != (#[trigger] r[b]).0 by {
            if b == kept.len() {
                assert(r[a] == kept[a]);
            } else {
                assert(r[a] == kept[a] && r[b] == kept[b]);
            }
        }
        let n = kept.len() as int;
        assert(r[n].0 == e.0);
        let c = choose|c: int| 0 <= c < r.len() && r[c].0 == e.0;
        if c != n {
            assert(r[c] == kept[c]);
        }
    }
}

/// An insert into a full cache first removes exactly `ICON_CACHE_EVICT`
/// entries, none newer than any entry it keeps, then caches the new entry;
/// the kept entries of other paths stay cached.
pub proof fn law_full_insert_evicts_oldest(es: Seq<(Seq<char>, u64, Option<Seq<char>>)>, e: (Seq<char>, u64, Option<Seq<char>>))
    requires
        paths_distinct(es),
        es.len() >= ICON_CACHE_MAX,
    ensures
        ({
            let kept = evict_oldest(es, ICON_CACHE_EVICT as nat);
            &&& kept.len() == es.len() - ICON_CACHE_EVICT
            &&& forall|x: (Seq<char>, u64, Option<Seq<char>>)| kept.contains(x) ==> es.contains(x)
            &&& forall|x: (Seq<char>, u64, Option<Seq<char>>), y: (Seq<char>, u64, Option<Seq<char>>)|
                #![trigger es.contains(x), kept.contains(y)]
                es.contains(x) && !kept.contains(x) && kept.contains(y) ==> x.1 <= y.1
            &&& after_insert(es, e) == put(kept, e)
            &&& forall|x: (Seq<char>, u64, Option<Seq<char>>)|
                kept.contains(x) && x.0 != e.0 ==> #[trigger] after_insert(es, e).contains(x)
        }),
{
    lemma_evict_distinct(es, ICON_CACHE_EVICT as nat);
    lemma_evict_oldest_facts(es, ICON_CACHE_EVICT as nat);
    lemma_put_keeps_others(evict_oldest(es, ICON_CACHE_EVICT as nat), e);
}

/// An insert into a cache that is not full removes nothing: every entry of
/// another path stays cached.
pub proof fn law_insert_below_max_keeps_others(es: Seq<(Seq<char>, u64, Option<Seq<char>>)>, e: (Seq<char>, u64, Option<Seq<char>>))
    requires
        es.len() < ICON_CACHE_MAX,
    ensures
        after_insert(es, e) == put(es, e),
        forall|x: (Seq<char>, u64, Option<Seq<char>>)|
            es.contains(x) && x.0 != e.0 ==> #[trigger] after_insert(es, e).contains(x),
{
    lemma_put_keeps_others(es, e);
}

proof fn lemma_put_keeps_others(es: Seq<(Seq<char>, u64, Option<Seq<char>>)>, e: (Seq<char>, u64, Option<Seq<char>>))
    ensures
        forall|x: (Seq<char>, u64, Option<Seq<char>>)|
            es.contains(x) && x.0 != e.0 ==> #[trigger] put(es, e).contains(x),
{
    assert forall|x: (Seq<char>, u64, Option<Seq<char>>)| es.contains(x) && x.0 != e.0 implies #[trigger] put(
        es,
        e,
    ).contains(x) by {
        let j = choose|j: int| 0 <= j < es.len() && es[j] == x;
        if exists|i: int| 0 <= i < es.len() && es[i].0 == e.0 {
            let i = choose|i: int| 0 <= i < es.len() && es[i].0 == e.0;
            assert(j != i);
            assert(put(es, e)[j] == x);
        } else {
            assert(put(es, e)[j] == x);
        }
    }
}

} // verus!
