//! Counting occurrences and picking the most frequent value (dominant genre,
//! year or track artist of an album).
use vstd::prelude::*;

use crate::text::chars_eq;

verus! {

/// Number of occurrences of `x` in `s`.
pub open spec fn count_of<A>(s: Seq<A>, x: A) -> nat
    decreases s.len(),
{
    if s.len() == 0 {
        0
    } else {
        count_of(s.drop_last(), x) + if s.last() == x {
            1nat
        } else {
            0nat
        }
    }
}

pub proof fn lemma_count_push<A>(s: Seq<A>, a: A, x: A)
    ensures
        count_of(s.push(a), x) == count_of(s, x) + if a == x {
            1nat
        } else {
            0nat
        },
{
    assert(s.push(a).drop_last() =~= s);
}

pub proof fn lemma_count_bound<A>(s: Seq<A>, x: A)
    ensures
        count_of(s, x) <= s.len(),
    decreases s.len(),
{
    if s.len() > 0 {
        lemma_count_bound(s.drop_last(), x);
    }
}

pub proof fn lemma_count_contains<A>(s: Seq<A>, x: A)
    ensures
        count_of(s, x) > 0 <==> s.contains(x),
    decreases s.len(),
{
    if s.len() > 0 {
        lemma_count_contains(s.drop_last(), x);
        if s.drop_last().contains(x) {
            let k = choose|k: int| 0 <= k < s.drop_last().len() && s.drop_last()[k] == x;
            assert(s[k] == x);
        }
        if s.contains(x) && s.last() != x {
            let k = choose|k: int| 0 <= k < s.len() && s[k] == x;
            assert(s.drop_last()[k] == x);
        }
    }
}

pub proof fn lemma_count_concat<A>(s: Seq<A>, t: Seq<A>, x: A)
    ensures
        count_of(s + t, x) == count_of(s, x) + count_of(t, x),
    decreases t.len(),
{
    if t.len() == 0 {
        assert(s + t =~= s);
    } else {
        assert((s + t).drop_last() =~= s + t.drop_last());
        lemma_count_concat(s, t.drop_last(), x);
    }
}

/// `best` occurs in `s` at least as often as any value of `s`.
pub open spec fn is_most_frequent<A>(s: Seq<A>, best: A) -> bool {
    &&& s.contains(best)
    &&& forall|x: A| #[trigger] count_of(s, x) <= count_of(s, best)
}

/// Distinct values seen so far with their counts, in first-seen order.
pub open spec fn tally_ok(seen: Seq<Seq<char>>, keys: Seq<Seq<char>>, counts: Seq<usize>) -> bool {
    &&& keys.len() == counts.len()
    &&& forall|i: int, j: int| 0 <= i < j < keys.len() ==> keys[i] != keys[j]
    &&& forall|i: int| 0 <= i < keys.len() ==> #[trigger] counts[i] == count_of(seen, keys[i])
    &&& forall|i: int| 0 <= i < keys.len() ==> seen.contains(#[trigger] keys[i])
    &&& forall|x: Seq<char>| seen.contains(x) ==> #[trigger] keys.contains(x)
}

/// Position of `x` among `keys`.
pub fn find_key(keys: &Vec<Vec<char>>, x: &Vec<char>) -> (r: Option<usize>)
    ensures
        match r {
            Some(i) => i < keys.len() && keys@[i as int]@ == x@,
            None => forall|i: int| 0 <= i < keys.len() ==> #[trigger] keys@[i]@ != x@,
        },
{
    let mut i: usize = 0;
    while i < keys.len()
        invariant
            i <= keys.len(),
            forall|k: int| 0 <= k < i ==> #[trigger] keys@[k]@ != x@,
        decreases keys.len() - i,
    {
        if chars_eq(&keys[i], x) {
            return Some(i);
        }
        i = i + 1;
    }
    None
}

pub open spec fn views(v: Seq<Vec<char>>) -> Seq<Seq<char>> {
    v.map_values(|c: Vec<char>| c@)
}

/// Records one more occurrence of `x`.
pub fn tally_add(keys: &mut Vec<Vec<char>>, counts: &mut Vec<usize>, x: Vec<char>, Ghost(seen): Ghost<Seq<Seq<char>>>)
    requires
        tally_ok(seen, views(old(keys)@), old(counts)@),
        seen.len() < usize::MAX,
    ensures
        tally_ok(seen.push(x@), views(final(keys)@), final(counts)@),
        views(old(keys)@).contains(x@) ==> views(final(keys)@) == views(old(keys)@),
        !views(old(keys)@).contains(x@) ==> views(final(keys)@) == views(old(keys)@).push(x@),
{
    proof {
        assert forall|y: Seq<char>| #[trigger] count_of(seen.push(x@), y) == count_of(seen, y) + if x@ == y { 1nat } else { 0nat } by {
            lemma_count_push(seen, x@, y);
        }
    }
    let ghost ks = views(keys@);
    match find_key(keys, &x) {
        Some(i) => {
            proof {
                assert(ks[i as int] == x@);
                lemma_count_bound(seen, x@);
                assert(counts@[i as int] == count_of(seen, ks[i as int]));
            }
            let c = counts[i] + 1;
            counts.set(i, c);
            proof {
                assert(ks.contains(x@));
                let s2 = seen.push(x@);
                assert forall|j: int| 0 <= j < ks.len() implies #[trigger] counts@[j] == count_of(s2, ks[j]) by {
                    if j != i {
                        assert(ks[j] != ks[i as int]);
                    }
                }
                assert forall|j: int| 0 <= j < ks.len() implies s2.contains(#[trigger] ks[j]) by {
                    assert(seen.contains(ks[j]));
                    let k = choose|k: int| 0 <= k < seen.len() && seen[k] == ks[j];
                    assert(s2[k] == ks[j]);
                }
                assert forall|y: Seq<char>| s2.contains(y) implies #[trigger] ks.contains(y) by {
                    let k = choose|k: int| 0 <= k < s2.len() && s2[k] == y;
                    if k < seen.len() {
                        assert(seen[k] == y);
                        assert(seen.contains(y));
                    } else {
                        assert(ks[i as int] == y);
                    }
                }
                assert(views(keys@) =~= ks);
            }
        },
        None => {
            proof {
                assert(!ks.contains(x@)) by {
                    if ks.contains(x@) {
                        let k = choose|k: int| 0 <= k < ks.len() && ks[k] == x@;
                        assert(keys@[k]@ == x@);
                    }
                }
                assert(!seen.contains(x@));
                lemma_count_contains(seen, x@);
            }
            let ghost xv = x@;
            keys.push(x);
            counts.push(1);
            proof {
                assert(views(keys@) =~= ks.push(xv));
                let s2 = seen.push(keys@[ks.len() as int]@);
                let ks2 = views(keys@);
                assert(ks2 =~= ks.push(s2.last()));
                assert forall|j: int| 0 <= j < ks2.len() implies #[trigger] counts@[j] == count_of(s2, ks2[j]) by {
                    if j < ks.len() {
                        assert(ks2[j] == ks[j]);
                        assert(ks[j] != s2.last()) by {
                            if ks[j] == s2.last() {
                                assert(seen.contains(ks[j]));
                            }
                        }
                    }
                }
                assert forall|j: int| 0 <= j < ks2.len() implies s2.contains(#[trigger] ks2[j]) by {
                    if j < ks.len() {
                        assert(seen.contains(ks[j]));
                        let k = choose|k: int| 0 <= k < seen.len() && seen[k] == ks[j];
                        assert(s2[k] == ks[j]);
                    } else {
                        assert(s2[seen.len() as int] == ks2[j]);
                    }
                }
                assert forall|y: Seq<char>| s2.contains(y) implies #[trigger] ks2.contains(y) by {
                    let k = choose|k: int| 0 <= k < s2.len() && s2[k] == y;
                    if k < seen.len() {
                        assert(seen[k] == y);
                        assert(seen.contains(y));
                        assert(ks.contains(y));
                        let m = choose|m: int| 0 <= m < ks.len() && ks[m] == y;
                        assert(ks2[m] == y);
                    } else {
                        assert(ks2[ks.len() as int] == y);
                    }
                }
                assert forall|a: int, b: int| 0 <= a < b < ks2.len() implies ks2[a] != ks2[b] by {
                    if b == ks.len() {
                        assert(seen.contains(ks[a]));
                    }
                }
            }
        },
    }
}

/// Index of the first largest count.
pub fn index_of_max(counts: &Vec<usize>) -> (r: usize)
    requires
        counts.len() > 0,
    ensures
        r < counts.len(),
        forall|i: int| 0 <= i < counts.len() ==> #[trigger] counts@[i] <= counts@[r as int],
{
    let mut best: usize = 0;
    let mut i: usize = 1;
    while i < counts.len()
        invariant
            counts.len() > 0,
            best < i <= counts.len(),
            forall|k: int| 0 <= k < i ==> #[trigger] counts@[k] <= counts@[best as int],
        decreases counts.len() - i,
    {
        if counts[i] > counts[best] {
            best = i;
        }
        i = i + 1;
    }
    best
}

/// The most frequent key of a tally, if anything was seen.
pub proof fn lemma_tally_max(seen: Seq<Seq<char>>, keys: Seq<Seq<char>>, counts: Seq<usize>, b: int)
    requires
        tally_ok(seen, keys, counts),
        0 <= b < keys.len(),
        forall|i: int| 0 <= i < counts.len() ==> #[trigger] counts[i] <= counts[b],
    ensures
        is_most_frequent(seen, keys[b]),
{
    assert forall|x: Seq<char>| #[trigger] count_of(seen, x) <= count_of(seen, keys[b]) by {
        lemma_count_contains(seen, x);
        if seen.contains(x) {
            assert(keys.contains(x));
            let m = choose|m: int| 0 <= m < keys.len() && keys[m] == x;
            assert(counts[m] <= counts[b]);
        }
    }
}

pub proof fn lemma_tally_empty(seen: Seq<Seq<char>>, keys: Seq<Seq<char>>, counts: Seq<usize>)
    requires
        tally_ok(seen, keys, counts),
        keys.len() == 0,
    ensures
        seen.len() == 0,
{
    if seen.len() > 0 {
        assert(seen.contains(seen[0]));
        assert(keys.contains(seen[0]));
    }
}

} // verus!
