//! Ordering indices by integer keys, and collecting distinct integers.

use vstd::prelude::*;

verus! {

/// `perm`, which lists indices by ascending key, with the index `x` put
/// behind every index whose key is not larger than that of `x`.
pub open spec fn insert_by_key(perm: Seq<usize>, keys: Seq<i64>, x: usize) -> Seq<usize>
    decreases perm.len(),
{
    if perm.len() == 0 || keys[perm.last() as int] <= keys[x as int] {
        perm.push(x)
    } else {
        insert_by_key(perm.drop_last(), keys, x).push(perm.last())
    }
}

/// The indices below `n` by ascending key; indices with equal keys keep
/// their order.
pub open spec fn order_by_key(keys: Seq<i64>, n: nat) -> Seq<usize>
    decreases n,
{
    if n == 0 {
        Seq::<usize>::empty()
    } else {
        insert_by_key(order_by_key(keys, (n - 1) as nat), keys, (n - 1) as usize)
    }
}

/// Whether `perm` lists indices below `n` by ascending key, equal keys by
/// ascending index, none twice.
pub open spec fn is_ordered(perm: Seq<usize>, keys: Seq<i64>, n: nat) -> bool {
    &&& forall|i: int| 0 <= i < perm.len() ==> (#[trigger] perm[i]) < n
    &&& forall|i: int, j: int|
        0 <= i < j < perm.len() ==> keys[#[trigger] perm[i] as int] < keys[#[trigger] perm[j] as int]
            || (keys[perm[i] as int] == keys[perm[j] as int] && perm[i] < perm[j])
}

/// Where `insert_by_key` puts the new index: behind the last index whose key
/// is not larger.
pub proof fn lemma_insert_position(perm: Seq<usize>, keys: Seq<i64>, x: usize, p: int)
    requires
        0 <= p <= perm.len(),
        p > 0 ==> keys[perm[p - 1] as int] <= keys[x as int],
        forall|i: int| p <= i < perm.len() ==> keys[#[trigger] perm[i] as int] > keys[x as int],
    ensures
        insert_by_key(perm, keys, x) == perm.insert(p, x),
    decreases perm.len() - p,
{
    if p == perm.len() {
        assert(perm.insert(p, x) == perm.push(x));
    } else {
        assert(keys[perm[perm.len() - 1] as int] > keys[x as int]);
        let shorter = perm.drop_last();
        assert forall|i: int| p <= i < shorter.len() implies keys[#[trigger] shorter[i] as int]
            > keys[x as int] by {
            assert(shorter[i] == perm[i]);
        }
        if p > 0 {
            assert(shorter[p - 1] == perm[p - 1]);
        }
        lemma_insert_position(shorter, keys, x, p);
        assert(shorter.insert(p, x).push(perm.last()) == perm.insert(p, x));
    }
}

/// The position that [`lemma_insert_position`] speaks of exists.
pub proof fn lemma_position_exists(perm: Seq<usize>, keys: Seq<i64>, x: usize) -> (p: int)
    ensures
        0 <= p <= perm.len(),
        p > 0 ==> keys[perm[p - 1] as int] <= keys[x as int],
        forall|i: int| p <= i < perm.len() ==> keys[#[trigger] perm[i] as int] > keys[x as int],
    decreases perm.len(),
{
    if perm.len() == 0 || keys[perm.last() as int] <= keys[x as int] {
        perm.len() as int
    } else {
        let p = lemma_position_exists(perm.drop_last(), keys, x);
        assert forall|i: int| p <= i < perm.len() implies keys[#[trigger] perm[i] as int] > keys[x as int] by {
            if i < perm.len() - 1 {
                assert(perm.drop_last()[i] == perm[i]);
            }
        }
        if p > 0 {
            assert(perm.drop_last()[p - 1] == perm[p - 1]);
        }
        p
    }
}

/// The ordering of the indices below `n` holds each of them once, by
/// ascending key, and indices with equal keys in ascending order.
pub proof fn lemma_order_by_key(keys: Seq<i64>, n: nat)
    requires
        n <= keys.len(),
        n <= usize::MAX,
    ensures
        order_by_key(keys, n).len() == n,
        is_ordered(order_by_key(keys, n), keys, n),
        forall|x: usize| x < n ==> order_by_key(keys, n).contains(x),
    decreases n,
{
    if n > 0 {
        let before = order_by_key(keys, (n - 1) as nat);
        let x = (n - 1) as usize;
        lemma_order_by_key(keys, (n - 1) as nat);
        let p = lemma_position_exists(before, keys, x);
        lemma_insert_position(before, keys, x, p);
        let after = order_by_key(keys, n);
        assert(after == before.insert(p, x));
        assert forall|i: int| 0 <= i < after.len() implies (#[trigger] after[i]) < n by {
            if i < p {
                assert(after[i] == before[i]);
            } else if i > p {
                assert(after[i] == before[i - 1]);
            }
        }
        assert forall|i: int, j: int| 0 <= i < j < after.len() implies keys[#[trigger] after[i] as int]
            < keys[#[trigger] after[j] as int] || (keys[after[i] as int] == keys[after[j] as int]
            && after[i] < after[j]) by {
            let a = if i < p {
                i
            } else {
                i - 1
            };
            let b = if j < p {
                j
            } else {
                j - 1
            };
            if i != p && j != p {
                assert(after[i] == before[a]);
                assert(after[j] == before[b]);
                assert(a < b);
            } else if i == p {
                assert(after[j] == before[b]);
                assert(keys[before[b] as int] > keys[x as int]);
            } else {
                assert(after[i] == before[a]);
                assert(before[a] < n - 1);
                if p > 0 {
                    if a < p - 1 {
                        assert(keys[before[a] as int] <= keys[before[p - 1] as int]);
                    }
                }
            }
        }
        assert forall|y: usize| y < n implies after.contains(y) by {
            if y == x {
                assert(after[p] == x);
            } else {
                assert(before.contains(y));
                let k = choose|k: int| 0 <= k < before.len() && before[k] == y;
                if k < p {
                    assert(after[k] == y);
                } else {
                    assert(after[k + 1] == y);
                }
            }
        }
    }
}

/// Lists the indices of `keys` by ascending key, indices with equal keys in
/// ascending order.
pub fn ordered_indices(keys: &Vec<i64>) -> (perm: Vec<usize>)
    ensures
        perm@ == order_by_key(keys@, keys@.len()),
        perm@.len() == keys@.len(),
        forall|i: int| 0 <= i < perm@.len() ==> (#[trigger] perm@[i]) < keys@.len(),
{
    let mut perm: Vec<usize> = Vec::new();
    let mut n: usize = 0;
    while n < keys.len()
        invariant
            n <= keys.len(),
            perm@ == order_by_key(keys@, n as nat),
            perm@.len() == n,
            forall|i: int| 0 <= i < perm@.len() ==> (#[trigger] perm@[i]) < n,
        decreases keys.len() - n,
    {
        let key = keys[n];
        let mut p: usize = perm.len();
        while p > 0 && keys[perm[p - 1]] > key
            invariant
                0 <= p <= perm.len(),
                perm@.len() == n,
                n < keys.len(),
                key == keys@[n as int],
                forall|i: int| 0 <= i < perm@.len() ==> (#[trigger] perm@[i]) < n,
                forall|i: int| p <= i < perm@.len() ==> keys@[#[trigger] perm@[i] as int] > key,
            decreases p,
        {
            p -= 1;
        }
        proof {
            lemma_insert_position(perm@, keys@, n, p as int);
        }
        let ghost before = perm@;
        perm.insert(p, n);
        assert forall|i: int| 0 <= i < perm@.len() implies (#[trigger] perm@[i]) < n + 1 by {
            if i < p {
                assert(perm@[i] == before[i]);
            } else if i > p {
                assert(perm@[i] == before[i - 1]);
            }
        }
        n += 1;
    }
    perm
}

/// Whether `s` is strictly ascending.
pub open spec fn is_ascending(s: Seq<i64>) -> bool {
    forall|i: int, j: int| 0 <= i < j < s.len() ==> s[i] < s[j]
}

/// Puts `x` into the strictly ascending `sorted`, unless it is there.
pub fn insert_distinct(sorted: &mut Vec<i64>, x: i64)
    requires
        is_ascending(old(sorted)@),
    ensures
        is_ascending(final(sorted)@),
        final(sorted)@.to_set() == old(sorted)@.to_set().insert(x),
{
    let mut p: usize = sorted.len();
    while p > 0 && sorted[p - 1] >= x
        invariant
            0 <= p <= sorted.len(),
            sorted@ == old(sorted)@,
            forall|i: int| p <= i < sorted@.len() ==> (#[trigger] sorted@[i]) >= x,
        decreases p,
    {
        p -= 1;
    }
    let ghost before = sorted@;
    if p < sorted.len() && sorted[p] == x {
        assert(before.to_set().insert(x) =~= before.to_set()) by {
            assert(before.contains(before[p as int]));
        }
        return ;
    }
    sorted.insert(p, x);
    let ghost after = sorted@;
    assert forall|i: int, j: int| 0 <= i < j < after.len() implies after[i] < after[j] by {
        let a = if i < p {
            i
        } else {
            i - 1
        };
        let b = if j < p {
            j
        } else {
            j - 1
        };
        if i != p && j != p {
            assert(after[i] == before[a] && after[j] == before[b]);
        } else if i == p {
            assert(after[j] == before[b]);
            assert(before[b] >= x);
            if b > p {
                assert(before[p as int] < before[b]);
            }
        } else {
            assert(after[i] == before[a]);
            if a < p - 1 {
                assert(before[a] < before[p - 1]);
            }
        }
    }
    assert(after.to_set() =~= before.to_set().insert(x)) by {
        assert forall|y: i64| after.contains(y) <==> (before.contains(y) || y == x) by {
            if after.contains(y) {
                let k = choose|k: int| 0 <= k < after.len() && after[k] == y;
                if k < p {
                    assert(before[k] == y);
                } else if k > p {
                    assert(before[k - 1] == y);
                }
            }
            if before.contains(y) {
                let k = choose|k: int| 0 <= k < before.len() && before[k] == y;
                if k < p {
                    assert(after[k] == y);
                } else {
                    assert(after[k + 1] == y);
                }
            }
            if y == x {
                assert(after[p as int] == x);
            }
        }
    }
}


/// A sequence with one more element holds what it held and that element.
pub proof fn lemma_push_contains(s: Seq<i64>, v: i64)
    ensures
        forall|x: i64| s.push(v).contains(x) <==> s.contains(x) || x == v,
{
    let longer = s.push(v);
    assert forall|x: i64| longer.contains(x) <==> s.contains(x) || x == v by {
        if s.contains(x) {
            let k = choose|k: int| 0 <= k < s.len() && s[k] == x;
            assert(longer[k] == x);
        }
        if x == v {
            assert(longer[s.len() as int] == x);
        }
        if longer.contains(x) {
            let k = choose|k: int| 0 <= k < longer.len() && longer[k] == x;
            if k < s.len() {
                assert(s[k] == x);
            }
        }
    }
}

} // verus!
