//! Stable ordering by a two-part key: a number first, then a text in
//! code-point order; equal keys keep their original order.
use vstd::prelude::*;

verus! {

/// Lexicographic order of texts by code point (the order of their UTF-8
/// bytes, which is how std compares `String`s).
pub open spec fn chars_lt(a: Seq<char>, b: Seq<char>) -> bool
    decreases a.len(),
{
    if a.len() == 0 {
        b.len() > 0
    } else if b.len() == 0 {
        false
    } else if a[0] != b[0] {
        a[0] < b[0]
    } else {
        chars_lt(a.drop_first(), b.drop_first())
    }
}

pub proof fn lemma_chars_lt_asym(a: Seq<char>, b: Seq<char>)
    ensures
        chars_lt(a, b) ==> !chars_lt(b, a),
        !chars_lt(a, a),
    decreases a.len(),
{
    if a.len() > 0 && b.len() > 0 {
        lemma_chars_lt_asym(a.drop_first(), b.drop_first());
    }
    if a.len() > 0 {
        lemma_chars_lt_asym(a.drop_first(), a.drop_first());
    }
}

pub proof fn lemma_chars_lt_trans(a: Seq<char>, b: Seq<char>, c: Seq<char>)
    requires
        chars_lt(a, b),
        chars_lt(b, c),
    ensures
        chars_lt(a, c),
    decreases a.len(),
{
    if a.len() > 0 && a[0] == b[0] && b[0] == c[0] {
        lemma_chars_lt_trans(a.drop_first(), b.drop_first(), c.drop_first());
    }
}

pub proof fn lemma_chars_lt_total(a: Seq<char>, b: Seq<char>)
    ensures
        a == b || chars_lt(a, b) || chars_lt(b, a),
    decreases a.len(),
{
    if a.len() > 0 && b.len() > 0 && a[0] == b[0] {
        lemma_chars_lt_total(a.drop_first(), b.drop_first());
        if a.drop_first() == b.drop_first() {
            assert forall|k: int| 0 <= k < a.len() implies a[k] == b[k] by {
                if k > 0 {
                    assert(a[k] == a.drop_first()[k - 1]);
                    assert(b[k] == b.drop_first()[k - 1]);
                }
            }
            assert(a =~= b);
        }
    } else if a.len() == 0 && b.len() == 0 {
        assert(a =~= b);
    }
}

pub proof fn lemma_chars_lt_skip(a: Seq<char>, b: Seq<char>, i: int)
    requires
        0 <= i <= a.len(),
        i <= b.len(),
        a.take(i) == b.take(i),
    ensures
        chars_lt(a, b) == chars_lt(a.skip(i), b.skip(i)),
    decreases i,
{
    if i > 0 {
        assert(a[0] == a.take(i)[0]);
        assert(b[0] == b.take(i)[0]);
        let a1 = a.drop_first();
        let b1 = b.drop_first();
        assert forall|k: int| 0 <= k < i - 1 implies #[trigger] a1.take(i - 1)[k] == b1.take(i - 1)[k] by {
            assert(a.take(i)[k + 1] == b.take(i)[k + 1]);
            assert(a1.take(i - 1)[k] == a.take(i)[k + 1]);
            assert(b1.take(i - 1)[k] == b.take(i)[k + 1]);
        }
        assert(a1.take(i - 1) =~= b1.take(i - 1));
        lemma_chars_lt_skip(a1, b1, i - 1);
        assert(a1.skip(i - 1) =~= a.skip(i));
        assert(b1.skip(i - 1) =~= b.skip(i));
    } else {
        assert(a.skip(0) =~= a);
        assert(b.skip(0) =~= b);
    }
}

/// Whether `a` sorts strictly before `b`.
pub fn chars_less(a: &Vec<char>, b: &Vec<char>) -> (r: bool)
    ensures
        r == chars_lt(a@, b@),
{
    let mut i: usize = 0;
    while i < a.len() && i < b.len() && a[i] == b[i]
        invariant
            i <= a@.len(),
            i <= b@.len(),
            a@.take(i as int) == b@.take(i as int),
        decreases a@.len() - i,
    {
        proof {
            assert(a@.take(i + 1) == a@.take(i as int).push(a@[i as int]));
            assert(b@.take(i + 1) == b@.take(i as int).push(b@[i as int]));
        }
        i += 1;
    }
    proof {
        lemma_chars_lt_skip(a@, b@, i as int);
    }
    if i < a.len() && i < b.len() {
        proof {
            assert(a@.skip(i as int)[0] == a@[i as int]);
            assert(b@.skip(i as int)[0] == b@[i as int]);
        }
        a[i] < b[i]
    } else {
        i == a.len() && i < b.len()
    }
}


/// A sort key: a number, then a text.
pub open spec fn key_lt(a: (usize, Seq<char>), b: (usize, Seq<char>)) -> bool {
    a.0 < b.0 || (a.0 == b.0 && chars_lt(a.1, b.1))
}

/// Item `i` goes before item `j`: a smaller key, or an equal key and an
/// earlier position.
pub open spec fn before(keys: Seq<(usize, Seq<char>)>, i: int, j: int) -> bool {
    key_lt(keys[i], keys[j]) || (keys[i] == keys[j] && i < j)
}

pub proof fn lemma_before_order(keys: Seq<(usize, Seq<char>)>, i: int, j: int, k: int)
    ensures
        !before(keys, i, i),
        before(keys, i, j) ==> !before(keys, j, i),
        i != j ==> before(keys, i, j) || before(keys, j, i),
        before(keys, i, j) && before(keys, j, k) ==> before(keys, i, k),
{
    lemma_chars_lt_asym(keys[i].1, keys[j].1);
    lemma_chars_lt_asym(keys[i].1, keys[i].1);
    lemma_chars_lt_asym(keys[j].1, keys[k].1);
    lemma_chars_lt_total(keys[i].1, keys[j].1);
    if chars_lt(keys[i].1, keys[j].1) && chars_lt(keys[j].1, keys[k].1) {
        lemma_chars_lt_trans(keys[i].1, keys[j].1, keys[k].1);
    }
    if keys[i].0 == keys[j].0 && keys[i].1 == keys[j].1 {
        assert(keys[i] == keys[j]);
    }
}

pub open spec fn lists(o: Seq<usize>, x: int) -> bool {
    exists|k: int| 0 <= k < o.len() && o[k] == x
}

/// `o` lists every index of `keys` once, in key order (stable).
pub open spec fn is_sorted_order(keys: Seq<(usize, Seq<char>)>, o: Seq<usize>) -> bool {
    &&& o.len() == keys.len()
    &&& forall|k: int| 0 <= k < o.len() ==> (#[trigger] o[k]) < keys.len()
    &&& forall|k1: int, k2: int|
        #![trigger o[k1], o[k2]]
        0 <= k1 < k2 < o.len() ==> before(keys, o[k1] as int, o[k2] as int)
    &&& forall|x: int| 0 <= x < keys.len() ==> #[trigger] lists(o, x)
}

/// The keys held as separate numbers and texts.
pub open spec fn key_seq(nums: Seq<usize>, texts: Seq<Vec<char>>) -> Seq<(usize, Seq<char>)> {
    Seq::new(nums.len(), |i: int| (nums[i], texts[i]@))
}

fn before_exec(nums: &Vec<usize>, texts: &Vec<Vec<char>>, i: usize, j: usize) -> (r: bool)
    requires
        nums@.len() == texts@.len(),
        i < nums@.len(),
        j < nums@.len(),
    ensures
        r == before(key_seq(nums@, texts@), i as int, j as int),
{
    let ghost keys = key_seq(nums@, texts@);
    if nums[i] != nums[j] {
        nums[i] < nums[j]
    } else if chars_less(&texts[i], &texts[j]) {
        true
    } else if chars_less(&texts[j], &texts[i]) {
        false
    } else {
        proof {
            lemma_chars_lt_total(texts@[i as int]@, texts@[j as int]@);
            assert(keys[i as int] == keys[j as int]);
        }
        i < j
    }
}

/// The indices of the keys in stable key order (an insertion sort).
pub fn stable_order(nums: &Vec<usize>, texts: &Vec<Vec<char>>) -> (o: Vec<usize>)
    requires
        nums@.len() == texts@.len(),
    ensures
        is_sorted_order(key_seq(nums@, texts@), o@),
{
    let ghost keys = key_seq(nums@, texts@);
    let n = nums.len();
    let mut order: Vec<usize> = Vec::new();
    let mut i: usize = 0;
    while i < n
        invariant
            i <= n,
            n == nums@.len(),
            nums@.len() == texts@.len(),
            keys == key_seq(nums@, texts@),
            order@.len() == i,
            forall|k: int| 0 <= k < order@.len() ==> (#[trigger] order@[k]) < i,
            forall|k1: int, k2: int|
                #![trigger order@[k1], order@[k2]]
                0 <= k1 < k2 < order@.len() ==> before(keys, order@[k1] as int, order@[k2] as int),
            forall|x: int| 0 <= x < i ==> #[trigger] lists(order@, x),
        decreases n - i,
    {
        let mut p: usize = 0;
        while p < order.len() && before_exec(nums, texts, order[p], i)
            invariant
                p <= order@.len(),
                i < n,
                n == nums@.len(),
                nums@.len() == texts@.len(),
                keys == key_seq(nums@, texts@),
                forall|k: int| 0 <= k < order@.len() ==> (#[trigger] order@[k]) < i,
                forall|a: int| 0 <= a < p ==> before(keys, #[trigger] order@[a] as int, i as int),
            decreases order@.len() - p,
        {
            p += 1;
        }
        let ghost old_order = order@;
        proof {
            if p < old_order.len() {
                lemma_before_order(keys, old_order[p as int] as int, i as int, 0);
            }
            old_order.insert_ensures(p as int, i);
        }
        order.insert(p, i);
        proof {
            let o = order@;
            assert forall|k: int| 0 <= k < o.len() implies (#[trigger] o[k]) < i + 1 by {
                if k < p {
                    assert(o[k] == old_order[k]);
                } else if k > p {
                    assert(o[k] == old_order[k - 1]);
                }
            }
            assert forall|k1: int, k2: int|
                #![trigger o[k1], o[k2]]
                0 <= k1 < k2 < o.len() implies before(keys, o[k1] as int, o[k2] as int) by {
                if k2 < p {
                    assert(o[k1] == old_order[k1] && o[k2] == old_order[k2]);
                } else if k2 == p {
                    assert(o[k1] == old_order[k1]);
                } else if k1 < p {
                    assert(o[k1] == old_order[k1] && o[k2] == old_order[k2 - 1]);
                } else if k1 == p {
                    assert(o[k2] == old_order[k2 - 1]);
                    if k2 - 1 > p {
                        assert(before(keys, old_order[p as int] as int, old_order[k2 - 1] as int));
                        lemma_before_order(
                            keys,
                            i as int,
                            old_order[p as int] as int,
                            old_order[k2 - 1] as int,
                        );
                    }
                } else {
                    assert(o[k1] == old_order[k1 - 1] && o[k2] == old_order[k2 - 1]);
                }
            }
            assert forall|x: int| 0 <= x < i + 1 implies #[trigger] lists(o, x) by {
                if x == i {
                    assert(o[p as int] == x);
                } else {
                    assert(lists(old_order, x));
                    let k = choose|k: int| 0 <= k < old_order.len() && old_order[k] == x;
                    if k < p {
                        assert(o[k] == x);
                    } else {
                        assert(o[k + 1] == x);
                    }
                }
            }
        }
        i += 1;
    }
    order
}

proof fn lemma_orders_agree_from(keys: Seq<(usize, Seq<char>)>, o1: Seq<usize>, o2: Seq<usize>, k: int)
    requires
        is_sorted_order(keys, o1),
        is_sorted_order(keys, o2),
        0 <= k <= o1.len(),
        forall|m: int| 0 <= m < k ==> o1[m] == o2[m],
    ensures
        forall|m: int| 0 <= m < o1.len() ==> o1[m] == o2[m],
    decreases o1.len() - k,
{
    if k < o1.len() {
        let a = o1[k] as int;
        let b = o2[k] as int;
        if a != b {
            assert(lists(o2, a));
            let m2 = choose|m: int| 0 <= m < o2.len() && o2[m] == a;
            assert(lists(o1, b));
            let m1 = choose|m: int| 0 <= m < o1.len() && o1[m] == b;
            lemma_before_order(keys, a, b, 0);
            lemma_before_order(keys, b, a, 0);
            if m2 < k {
                assert(o1[m2] == o2[m2]);
                assert(before(keys, o1[m2] as int, o1[k] as int));
            }
            if m1 < k {
                assert(o2[m1] == o1[m1]);
                assert(before(keys, o2[m1] as int, o2[k] as int));
            }
            assert(before(keys, o2[k] as int, o2[m2] as int));
            assert(before(keys, o1[k] as int, o1[m1] as int));
        }
        lemma_orders_agree_from(keys, o1, o2, k + 1);
    }
}

/// A stable key order is unique: two orders that both sort the same keys
/// are the same order.
pub proof fn law_sorted_order_unique(keys: Seq<(usize, Seq<char>)>, o1: Seq<usize>, o2: Seq<usize>)
    requires
        is_sorted_order(keys, o1),
        is_sorted_order(keys, o2),
    ensures
        o1 == o2,
{
    lemma_orders_agree_from(keys, o1, o2, 0);
    assert(o1 =~= o2);
}

} // verus!
