//! Ordering a list of names by their characters (an insertion sort of
//! positions).
use vstd::prelude::*;

use crate::library::tally::views;
use crate::text::{chars_less, lemma_seq_lt_trans, seq_lt};

verus! {

/// `order` lists every position below `n` once.
pub open spec fn is_order_of(order: Seq<usize>, n: int) -> bool {
    &&& order.len() == n
    &&& forall|k: int| 0 <= k < n ==> #[trigger] order[k] < n
    &&& forall|k1: int, k2: int| 0 <= k1 < k2 < n ==> order[k1] != order[k2]
    &&& forall|j: int| 0 <= j < n ==> #[trigger] order.contains(j as usize)
}

/// The keys taken in `order` never decrease, and positions with equal keys
/// keep their order (a stable sort).
pub open spec fn sorted_by(keys: Seq<Seq<char>>, order: Seq<usize>) -> bool {
    &&& forall|k1: int, k2: int|
        0 <= k1 < k2 < order.len() ==> !seq_lt(#[trigger] keys[order[k2] as int], #[trigger] keys[order[k1] as int])
    &&& forall|k1: int, k2: int|
        0 <= k1 < k2 < order.len() && #[trigger] keys[order[k1] as int] == #[trigger] keys[order[k2] as int]
            ==> order[k1] < order[k2]
}

proof fn lemma_insert_keeps(order: Seq<usize>, p: int, i: usize, n: int)
    requires
        0 <= p <= order.len(),
        order.len() == n,
        forall|k: int| 0 <= k < n ==> #[trigger] order[k] < n,
        forall|k1: int, k2: int| 0 <= k1 < k2 < n ==> order[k1] != order[k2],
        forall|j: int| 0 <= j < n ==> #[trigger] order.contains(j as usize),
        i == n,
    ensures
        is_order_of(order.insert(p, i), n + 1),
{
    let s = order.insert(p, i);
    assert forall|k: int| 0 <= k < n + 1 implies #[trigger] s[k] < n + 1 by {
        if k < p {
            assert(s[k] == order[k]);
        } else if k > p {
            assert(s[k] == order[k - 1]);
        }
    }
    assert forall|k1: int, k2: int| 0 <= k1 < k2 < n + 1 implies s[k1] != s[k2] by {
        if k1 < p {
            assert(s[k1] == order[k1]);
        } else if k1 > p {
            assert(s[k1] == order[k1 - 1]);
        }
        if k2 < p {
            assert(s[k2] == order[k2]);
        } else if k2 > p {
            assert(s[k2] == order[k2 - 1]);
        }
    }
    assert forall|j: int| 0 <= j < n + 1 implies #[trigger] s.contains(j as usize) by {
        if j == n {
            assert(s[p] == i);
        } else {
            assert(order.contains(j as usize));
            let k = choose|k: int| 0 <= k < order.len() && order[k] == j as usize;
            if k < p {
                assert(s[k] == order[k]);
            } else {
                assert(s[k + 1] == order[k]);
            }
        }
    }
}

proof fn lemma_insert_sorted(keys: Seq<Seq<char>>, order: Seq<usize>, p: int, i: usize)
    requires
        0 <= p <= order.len(),
        i < keys.len(),
        forall|k: int| 0 <= k < order.len() ==> #[trigger] order[k] < i,
        sorted_by(keys, order),
        forall|k: int| 0 <= k < p ==> !seq_lt(keys[i as int], #[trigger] keys[order[k] as int]),
        p < order.len() ==> seq_lt(keys[i as int], keys[order[p] as int]),
    ensures
        sorted_by(keys, order.insert(p, i)),
{
    let s = order.insert(p, i);
    let ki = keys[i as int];
    assert forall|k: int| p <= k < order.len() implies !seq_lt(#[trigger] keys[order[k] as int], ki) by {
        if seq_lt(keys[order[k] as int], ki) {
            lemma_seq_lt_trans(keys[order[k] as int], ki, keys[order[p] as int]);
            if k > p {
                assert(!seq_lt(keys[order[k] as int], keys[order[p] as int]));
            } else {
                crate::text::lemma_seq_lt_irreflexive(keys[order[k] as int]);
            }
        }
    }
    assert forall|k1: int, k2: int| 0 <= k1 < k2 < s.len() implies !seq_lt(
        #[trigger] keys[s[k2] as int],
        #[trigger] keys[s[k1] as int],
    ) by {
        if k2 < p {
            assert(s[k1] == order[k1] && s[k2] == order[k2]);
        } else if k2 == p {
            assert(s[k1] == order[k1] && s[k2] == i);
        } else if k1 < p {
            assert(s[k1] == order[k1] && s[k2] == order[k2 - 1]);
        } else if k1 == p {
            assert(s[k1] == i && s[k2] == order[k2 - 1]);
        } else {
            assert(s[k1] == order[k1 - 1] && s[k2] == order[k2 - 1]);
        }
    }
    assert forall|k1: int, k2: int|
        0 <= k1 < k2 < s.len() && #[trigger] keys[s[k1] as int] == #[trigger] keys[s[k2] as int] implies s[k1] < s[k2] by {
        if k2 < p {
            assert(s[k1] == order[k1] && s[k2] == order[k2]);
        } else if k2 == p {
            assert(s[k1] == order[k1] && s[k2] == i);
        } else if k1 < p {
            assert(s[k1] == order[k1] && s[k2] == order[k2 - 1]);
            assert(!seq_lt(keys[order[k2 - 1] as int], ki));
            if keys[order[k1] as int] == keys[order[k2 - 1] as int] {
                assert(!seq_lt(ki, keys[order[k1] as int]));
                assert(seq_lt(ki, keys[order[p] as int]));
                if k2 - 1 > p {
                    assert(!seq_lt(keys[order[k2 - 1] as int], keys[order[p] as int]));
                }
                crate::text::lemma_seq_lt_total(ki, keys[order[k1] as int]);
                lemma_seq_lt_trans(keys[order[k1] as int], ki, keys[order[p] as int]);
                crate::text::lemma_seq_lt_irreflexive(keys[order[k1] as int]);
            }
        } else if k1 == p {
            assert(s[k1] == i && s[k2] == order[k2 - 1]);
            assert(!seq_lt(keys[order[k2 - 1] as int], ki));
            if ki == keys[order[k2 - 1] as int] {
                if k2 - 1 > p {
                    assert(!seq_lt(keys[order[k2 - 1] as int], keys[order[p] as int]));
                }
                crate::text::lemma_seq_lt_irreflexive(ki);
            }
        } else {
            assert(s[k1] == order[k1 - 1] && s[k2] == order[k2 - 1]);
        }
    }
}

/// Positions of `keys` in the order of their characters.
pub fn sort_order(keys: &Vec<Vec<char>>) -> (order: Vec<usize>)
    ensures
        is_order_of(order@, keys.len() as int),
        sorted_by(views(keys@), order@),
{
    let ghost ks = views(keys@);
    let mut order: Vec<usize> = Vec::new();
    let mut i: usize = 0;
    while i < keys.len()
        invariant
            ks == views(keys@),
            i <= keys.len(),
            is_order_of(order@, i as int),
            sorted_by(ks, order@),
        decreases keys.len() - i,
    {
        let mut p: usize = 0;
        while p < order.len() && !chars_less(&keys[i], &keys[order[p]])
            invariant
                ks == views(keys@),
                i < keys.len(),
                p <= order.len() == i,
                forall|k: int| 0 <= k < i ==> #[trigger] order@[k] < i,
                forall|k: int| 0 <= k < p ==> !seq_lt(ks[i as int], #[trigger] ks[order@[k] as int]),
            decreases order.len() - p,
        {
            p = p + 1;
        }
        proof {
            lemma_insert_sorted(ks, order@, p as int, i);
            lemma_insert_keeps(order@, p as int, i, i as int);
        }
        order.insert(p, i);
        i = i + 1;
    }
    order
}

} // verus!
