use vstd::prelude::*;

verus! {

/// Position `a` of `keys` comes before position `b`: a smaller key first,
/// and between equal keys the earlier position.
pub open spec fn key_before(keys: Seq<u64>, a: int, b: int) -> bool {
    keys[a] < keys[b] || (keys[a] == keys[b] && a < b)
}

/// `order` lists every position of `keys` exactly once, by increasing key;
/// equal keys keep their relative order (a stable sort).
pub open spec fn is_sorted_order(keys: Seq<u64>, order: Seq<usize>) -> bool {
    &&& order.len() == keys.len()
    &&& forall|i: int| 0 <= i < order.len() ==> (#[trigger] order[i]) < keys.len()
    &&& forall|k: int| 0 <= k < keys.len() ==> #[trigger] order.contains(k as usize)
    &&& forall|i: int, j: int|
        0 <= i < j < order.len() ==> key_before(keys, #[trigger] order[i] as int, #[trigger] order[j] as int)
}

/// The stable sorted order of `keys`; it exists and is unique
/// (see `sorted_order_exists` and `sorted_order_unique`).
pub open spec fn sorted_order(keys: Seq<u64>) -> Seq<usize> {
    choose|order: Seq<usize>| is_sorted_order(keys, order)
}

/// Two stable sorted orders of the same keys are the same sequence.
pub proof fn sorted_order_unique(keys: Seq<u64>, o1: Seq<usize>, o2: Seq<usize>)
    requires
        is_sorted_order(keys, o1),
        is_sorted_order(keys, o2),
    ensures
        o1 == o2,
{
    if o1.len() > 0 {
        sorted_orders_agree_upto(keys, o1, o2, o1.len() - 1);
    }
    assert(o1 =~= o2);
}

proof fn sorted_orders_agree_upto(keys: Seq<u64>, o1: Seq<usize>, o2: Seq<usize>, i: int)
    requires
        is_sorted_order(keys, o1),
        is_sorted_order(keys, o2),
        0 <= i < o1.len(),
    ensures
        forall|g: int| 0 <= g <= i ==> o1[g] == o2[g],
    decreases i,
{
    if i > 0 {
        sorted_orders_agree_upto(keys, o1, o2, i - 1);
    }
    let a = o1[i];
    let b = o2[i];
    if a != b {
        assert(o2.contains((a as int) as usize));
        let ja = choose|j: int| 0 <= j < o2.len() && o2[j] == a;
        assert(o1.contains((b as int) as usize));
        let jb = choose|j: int| 0 <= j < o1.len() && o1[j] == b;
        if ja < i {
            assert(o1[ja] == o2[ja]);
            assert(key_before(keys, o1[ja] as int, o1[i] as int));
        }
        if jb < i {
            assert(o1[jb] == o2[jb]);
            assert(key_before(keys, o2[jb] as int, o2[i] as int));
        }
        assert(key_before(keys, o2[i] as int, o2[ja] as int));
        assert(key_before(keys, o1[i] as int, o1[jb] as int));
    }
}

/// `order` lists positions `0..count` of `keys`, each once, in stable key order.
pub open spec fn is_sorted_prefix_order(keys: Seq<u64>, order: Seq<usize>, count: int) -> bool {
    &&& order.len() == count
    &&& forall|j: int| 0 <= j < order.len() ==> (#[trigger] order[j]) < count
    &&& forall|k: int| 0 <= k < count ==> #[trigger] order.contains(k as usize)
    &&& forall|a: int, b: int|
        0 <= a < b < order.len() ==> key_before(keys, #[trigger] order[a] as int, #[trigger] order[b] as int)
}

/// How many of the leading entries of `order` have a key at most `k`.
pub open spec fn count_not_above(keys: Seq<u64>, order: Seq<usize>, k: u64) -> nat
    decreases order.len(),
{
    if order.len() == 0 || keys[order[0] as int] > k {
        0
    } else {
        1 + count_not_above(keys, order.drop_first(), k)
    }
}

proof fn count_not_above_splits(keys: Seq<u64>, order: Seq<usize>, count: int, k: u64)
    requires
        is_sorted_prefix_order(keys, order, count),
        count <= keys.len(),
    ensures
        count_not_above(keys, order, k) <= order.len(),
        forall|q: int| 0 <= q < count_not_above(keys, order, k) ==> keys[#[trigger] order[q] as int] <= k,
        forall|q: int| count_not_above(keys, order, k) <= q < order.len() ==> keys[#[trigger] order[q] as int] > k,
    decreases order.len(),
{
    if order.len() > 0 && keys[order[0] as int] <= k {
        let rest = order.drop_first();
        assert forall|a: int, b: int| 0 <= a < b < rest.len() implies key_before(keys, #[trigger] rest[a] as int, #[trigger] rest[b] as int) by {
            assert(rest[a] == order[a + 1] && rest[b] == order[b + 1]);
        }
        count_not_above_splits_sorted(keys, rest, k);
        assert forall|q: int| 1 <= q < order.len() implies #[trigger] order[q] == rest[q - 1] by {}
    } else if order.len() > 0 {
        assert forall|q: int| 0 <= q < order.len() implies keys[#[trigger] order[q] as int] > k by {
            if q > 0 {
                assert(key_before(keys, order[0] as int, order[q] as int));
            }
        }
    }
}

proof fn count_not_above_splits_sorted(keys: Seq<u64>, order: Seq<usize>, k: u64)
    requires
        forall|j: int| 0 <= j < order.len() ==> (#[trigger] order[j]) < keys.len(),
        forall|a: int, b: int|
            0 <= a < b < order.len() ==> key_before(keys, #[trigger] order[a] as int, #[trigger] order[b] as int),
    ensures
        count_not_above(keys, order, k) <= order.len(),
        forall|q: int| 0 <= q < count_not_above(keys, order, k) ==> keys[#[trigger] order[q] as int] <= k,
        forall|q: int| count_not_above(keys, order, k) <= q < order.len() ==> keys[#[trigger] order[q] as int] > k,
    decreases order.len(),
{
    if order.len() > 0 && keys[order[0] as int] <= k {
        let rest = order.drop_first();
        assert forall|a: int, b: int| 0 <= a < b < rest.len() implies key_before(keys, #[trigger] rest[a] as int, #[trigger] rest[b] as int) by {
            assert(rest[a] == order[a + 1] && rest[b] == order[b + 1]);
        }
        count_not_above_splits_sorted(keys, rest, k);
        assert forall|q: int| 1 <= q < order.len() implies #[trigger] order[q] == rest[q - 1] by {}
    } else if order.len() > 0 {
        assert forall|q: int| 0 <= q < order.len() implies keys[#[trigger] order[q] as int] > k by {
            if q > 0 {
                assert(key_before(keys, order[0] as int, order[q] as int));
            }
        }
    }
}

/// Inserting position `count` where the keys start to exceed its own keeps
/// the order sorted.
proof fn insert_keeps_sorted(keys: Seq<u64>, order: Seq<usize>, count: int, p: int)
    requires
        is_sorted_prefix_order(keys, order, count),
        0 <= count < keys.len(),
        count <= usize::MAX,
        0 <= p <= order.len(),
        forall|q: int| 0 <= q < p ==> keys[#[trigger] order[q] as int] <= keys[count],
        forall|q: int| p <= q < order.len() ==> keys[#[trigger] order[q] as int] > keys[count],
    ensures
        is_sorted_prefix_order(keys, order.insert(p, count as usize), count + 1),
{
    let res = order.insert(p, count as usize);
    assert forall|j: int| 0 <= j < res.len() implies (#[trigger] res[j]) < count + 1 by {
        if j < p {
            assert(res[j] == order[j]);
        } else if j > p {
            assert(res[j] == order[j - 1]);
        }
    }
    assert forall|k: int| 0 <= k < count + 1 implies #[trigger] res.contains(k as usize) by {
        if k == count {
            assert(res[p] == count as usize);
        } else {
            assert(order.contains(k as usize));
            let j = choose|j: int| 0 <= j < order.len() && order[j] == k as usize;
            if j < p {
                assert(res[j] == k as usize);
            } else {
                assert(res[j + 1] == k as usize);
            }
        }
    }
    assert forall|a: int, b: int| 0 <= a < b < res.len() implies key_before(keys, #[trigger] res[a] as int, #[trigger] res[b] as int) by {
        if b < p {
            assert(res[a] == order[a] && res[b] == order[b]);
        } else if b == p {
            assert(res[a] == order[a]);
        } else if a == p {
            assert(res[b] == order[b - 1]);
        } else if a > p {
            assert(res[a] == order[a - 1] && res[b] == order[b - 1]);
        } else {
            assert(res[a] == order[a] && res[b] == order[b - 1]);
            assert(key_before(keys, order[a] as int, order[b - 1] as int));
        }
    }
}

/// A stable sorted order of the first `count` positions exists.
proof fn sorted_prefix_order_exists(keys: Seq<u64>, count: int) -> (order: Seq<usize>)
    requires
        0 <= count <= keys.len(),
        keys.len() <= usize::MAX,
    ensures
        is_sorted_prefix_order(keys, order, count),
    decreases count,
{
    if count == 0 {
        Seq::empty()
    } else {
        let o = sorted_prefix_order_exists(keys, count - 1);
        let p = count_not_above(keys, o, keys[count - 1]);
        count_not_above_splits(keys, o, count - 1, keys[count - 1]);
        insert_keeps_sorted(keys, o, count - 1, p as int);
        o.insert(p as int, (count - 1) as usize)
    }
}

/// Every sequence of keys that fits in memory has a stable sorted order.
pub proof fn sorted_order_exists(keys: Seq<u64>)
    requires
        keys.len() <= usize::MAX,
    ensures
        is_sorted_order(keys, sorted_order(keys)),
{
    let o = sorted_prefix_order_exists(keys, keys.len() as int);
    assert(is_sorted_order(keys, o));
}

/// The stable sorted order of `keys`: positions `0..keys.len()` ordered by
/// key, equal keys in position order.
pub fn sort_positions_by_key(keys: &Vec<u64>) -> (order: Vec<usize>)
    ensures
        is_sorted_order(keys@, order@),
        order@ == sorted_order(keys@),
{
    let n: usize = keys.len();
    let mut res: Vec<usize> = Vec::new();
    let mut i: usize = 0;
    while i < n
        invariant
            n == keys.len(),
            i <= n,
            is_sorted_prefix_order(keys@, res@, i as int),
        decreases n - i,
    {
        let ki: u64 = keys[i];
        let mut p: usize = 0;
        while p < res.len() && keys[res[p]] <= ki
            invariant
                p <= res.len(),
                n == keys.len(),
                i < n,
                ki == keys@[i as int],
                is_sorted_prefix_order(keys@, res@, i as int),
                forall|q: int| 0 <= q < p ==> keys@[#[trigger] res@[q] as int] <= ki,
            decreases res.len() - p,
        {
            p = p + 1;
        }
        proof {
            assert forall|q: int| p <= q < res.len() implies keys@[#[trigger] res@[q] as int] > ki by {
                if q > p {
                    assert(key_before(keys@, res@[p as int] as int, res@[q] as int));
                }
            }
            insert_keeps_sorted(keys@, res@, i as int, p as int);
        }
        res.insert(p, i);
        i = i + 1;
    }
    proof {
        assert(is_sorted_order(keys@, res@));
        sorted_order_unique(keys@, res@, sorted_order(keys@));
    }
    res
}

} // verus!
