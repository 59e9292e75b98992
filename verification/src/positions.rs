//! Stable orders of positions: listing the positions of a sequence of keys sorted by key,
//! equal keys keeping their order (what a stable `sort_by` gives).
use vstd::prelude::*;

use crate::text::str_equal;
use crate::text_order::{
    lemma_text_lt_asymmetric, lemma_text_lt_irreflexive, lemma_text_lt_total, lemma_text_lt_transitive,
    text_less, text_lt,
};

verus! {

/// `out` lists each position of `0..n` exactly once.
pub open spec fn is_arrangement(out: Seq<usize>, n: nat) -> bool {
    &&& out.len() == n
    &&& forall|a: int| 0 <= a < out.len() ==> (#[trigger] out[a]) < n
    &&& forall|a: int, b: int| 0 <= a < b < out.len() ==> #[trigger] out[a] != #[trigger] out[b]
}

/// Pair `p` comes before pair `q`: by first text, then by second text.
pub open spec fn pair_lt(p: (Seq<char>, Seq<char>), q: (Seq<char>, Seq<char>)) -> bool {
    text_lt(p.0, q.0) || (p.0 == q.0 && text_lt(p.1, q.1))
}

/// `out` orders the positions of `keys` by key, equal keys by position.
pub open spec fn sorted_by_pairs(keys: Seq<(Seq<char>, Seq<char>)>, out: Seq<usize>) -> bool {
    &&& is_arrangement(out, keys.len())
    &&& forall|a: int, b: int|
        0 <= a < b < out.len() ==> pair_lt(keys[#[trigger] out[a] as int], keys[#[trigger] out[b] as int]) || (
        keys[out[a] as int] == keys[out[b] as int] && out[a] < out[b])
}

proof fn lemma_pair_lt_transitive(p: (Seq<char>, Seq<char>), q: (Seq<char>, Seq<char>), r: (Seq<char>, Seq<char>))
    requires
        pair_lt(p, q),
        pair_lt(q, r),
    ensures
        pair_lt(p, r),
{
    if text_lt(p.0, q.0) && text_lt(q.0, r.0) {
        lemma_text_lt_transitive(p.0, q.0, r.0);
    } else if p.0 == q.0 && q.0 == r.0 {
        lemma_text_lt_transitive(p.1, q.1, r.1);
    }
}

proof fn lemma_pair_lt_total(p: (Seq<char>, Seq<char>), q: (Seq<char>, Seq<char>))
    requires
        p != q,
    ensures
        pair_lt(p, q) || pair_lt(q, p),
{
    if p.0 != q.0 {
        lemma_text_lt_total(p.0, q.0);
    } else {
        assert(p.1 != q.1);
        lemma_text_lt_total(p.1, q.1);
    }
}

proof fn lemma_pair_lt_asymmetric(p: (Seq<char>, Seq<char>), q: (Seq<char>, Seq<char>))
    requires
        pair_lt(p, q),
    ensures
        !pair_lt(q, p),
        p != q,
{
    if text_lt(p.0, q.0) {
        lemma_text_lt_asymmetric(p.0, q.0);
        lemma_text_lt_irreflexive(p.0);
    } else {
        lemma_text_lt_asymmetric(p.1, q.1);
        lemma_text_lt_irreflexive(p.1);
        lemma_text_lt_irreflexive(p.0);
    }
}

/// The texts of the key pairs.
pub open spec fn pair_views(keys: Seq<(String, String)>) -> Seq<(Seq<char>, Seq<char>)> {
    keys.map_values(|k: (String, String)| (k.0@, k.1@))
}

fn pair_less(p: &(String, String), q: &(String, String)) -> (r: bool)
    ensures
        r == pair_lt((p.0@, p.1@), (q.0@, q.1@)),
{
    text_less(p.0.as_str(), q.0.as_str()) || (str_equal(p.0.as_str(), q.0.as_str()) && text_less(
        p.1.as_str(),
        q.1.as_str(),
    ))
}

/// The positions of `keys` ordered by key, equal keys keeping their order.
pub fn sort_by_pairs(keys: &Vec<(String, String)>) -> (r: Vec<usize>)
    ensures
        sorted_by_pairs(pair_views(keys@), r@),
{
    let ghost kv = pair_views(keys@);
    let mut out: Vec<usize> = Vec::new();
    let mut i: usize = 0;
    while i < keys.len()
        invariant
            i <= keys@.len(),
            kv == pair_views(keys@),
            kv.len() == keys@.len(),
            out@.len() == i,
            forall|a: int| 0 <= a < out@.len() ==> (#[trigger] out@[a]) < i,
            forall|a: int, b: int| 0 <= a < b < out@.len() ==> #[trigger] out@[a] != #[trigger] out@[b],
            forall|a: int, b: int|
                0 <= a < b < out@.len() ==> pair_lt(kv[#[trigger] out@[a] as int], kv[#[trigger] out@[b] as int])
                    || (kv[out@[a] as int] == kv[out@[b] as int] && out@[a] < out@[b]),
        decreases keys@.len() - i,
    {
        let mut p: usize = out.len();
        while p > 0 && pair_less(&keys[i], &keys[out[p - 1]])
            invariant
                p <= out@.len(),
                i < keys@.len(),
                kv == pair_views(keys@),
                kv.len() == keys@.len(),
                forall|a: int| 0 <= a < out@.len() ==> (#[trigger] out@[a]) < i,
                forall|j: int| p <= j < out@.len() ==> pair_lt(kv[i as int], kv[#[trigger] out@[j] as int]),
            decreases p,
        {
            assert(kv[i as int] == (keys@[i as int].0@, keys@[i as int].1@));
            p -= 1;
        }
        let ghost before = out@;
        proof {
            if p > 0 {
                assert(kv[i as int] == (keys@[i as int].0@, keys@[i as int].1@));
                assert(!pair_lt(kv[i as int], kv[before[p - 1] as int]));
            }
        }
        out.insert(p, i);
        proof {
            assert(out@ == before.insert(p as int, i));
            let k = kv[i as int];
            assert forall|a: int, b: int| 0 <= a < b < out@.len() implies pair_lt(
                kv[#[trigger] out@[a] as int],
                kv[#[trigger] out@[b] as int],
            ) || (kv[out@[a] as int] == kv[out@[b] as int] && out@[a] < out@[b]) by {
                if b < p {
                    assert(out@[a] == before[a] && out@[b] == before[b]);
                } else if b == p {
                    assert(out@[a] == before[a]);
                    let last = kv[before[p - 1] as int];
                    let x = kv[before[a] as int];
                    if last != k {
                        lemma_pair_lt_total(k, last);
                    }
                    if a < p - 1 {
                        if pair_lt(x, last) {
                            if pair_lt(last, k) {
                                lemma_pair_lt_transitive(x, last, k);
                            }
                        }
                    }
                } else if a < p {
                    assert(out@[a] == before[a] && out@[b] == before[b - 1]);
                } else if a == p {
                    assert(out@[b] == before[b - 1]);
                } else {
                    assert(out@[a] == before[a - 1] && out@[b] == before[b - 1]);
                }
            }
            assert forall|a: int, b: int| 0 <= a < b < out@.len() implies #[trigger] out@[a] != #[trigger] out@[b] by {
                if b < p {
                    assert(out@[a] == before[a] && out@[b] == before[b]);
                } else if b == p {
                    assert(out@[a] == before[a]);
                } else if a < p {
                    assert(out@[a] == before[a] && out@[b] == before[b - 1]);
                } else if a == p {
                    assert(out@[b] == before[b - 1]);
                } else {
                    assert(out@[a] == before[a - 1] && out@[b] == before[b - 1]);
                }
            }
            assert forall|a: int| 0 <= a < out@.len() implies (#[trigger] out@[a]) < i + 1 by {
                if a < p {
                    assert(out@[a] == before[a]);
                } else if a > p {
                    assert(out@[a] == before[a - 1]);
                }
            }
        }
        i += 1;
    }
    out
}

/// `out` orders the positions of `keys` from the largest key down, equal keys by
/// position.
pub open spec fn sorted_descending(keys: Seq<u64>, out: Seq<usize>) -> bool {
    &&& is_arrangement(out, keys.len())
    &&& forall|a: int, b: int|
        0 <= a < b < out.len() ==> keys[#[trigger] out[a] as int] > keys[#[trigger] out[b] as int] || (
        keys[out[a] as int] == keys[out[b] as int] && out[a] < out[b])
}

/// The positions of `keys` ordered from the largest key down, equal keys keeping their
/// order (a stable sort by `Reverse(key)`).
pub fn sort_descending(keys: &Vec<u64>) -> (r: Vec<usize>)
    ensures
        sorted_descending(keys@, r@),
{
    let mut out: Vec<usize> = Vec::new();
    let mut i: usize = 0;
    while i < keys.len()
        invariant
            i <= keys@.len(),
            out@.len() == i,
            forall|a: int| 0 <= a < out@.len() ==> (#[trigger] out@[a]) < i,
            forall|a: int, b: int| 0 <= a < b < out@.len() ==> #[trigger] out@[a] != #[trigger] out@[b],
            forall|a: int, b: int|
                0 <= a < b < out@.len() ==> keys@[#[trigger] out@[a] as int] > keys@[#[trigger] out@[b] as int]
                    || (keys@[out@[a] as int] == keys@[out@[b] as int] && out@[a] < out@[b]),
        decreases keys@.len() - i,
    {
        let mut p: usize = out.len();
        while p > 0 && keys[out[p - 1]] < keys[i]
            invariant
                p <= out@.len(),
                i < keys@.len(),
                forall|a: int| 0 <= a < out@.len() ==> (#[trigger] out@[a]) < i,
                forall|j: int| p <= j < out@.len() ==> keys@[#[trigger] out@[j] as int] < keys@[i as int],
            decreases p,
        {
            p -= 1;
        }
        let ghost before = out@;
        out.insert(p, i);
        proof {
            assert(out@ == before.insert(p as int, i));
            assert forall|a: int, b: int| 0 <= a < b < out@.len() implies keys@[#[trigger] out@[a] as int]
                > keys@[#[trigger] out@[b] as int] || (keys@[out@[a] as int] == keys@[out@[b] as int] && out@[a]
                < out@[b]) by {
                if b < p {
                    assert(out@[a] == before[a] && out@[b] == before[b]);
                } else if b == p {
                    assert(out@[a] == before[a]);
                    if a < p - 1 {
                        assert(keys@[before[a] as int] >= keys@[before[p - 1] as int]);
                    }
                } else if a < p {
                    assert(out@[a] == before[a] && out@[b] == before[b - 1]);
                } else if a == p {
                    assert(out@[b] == before[b - 1]);
                } else {
                    assert(out@[a] == before[a - 1] && out@[b] == before[b - 1]);
                }
            }
            assert forall|a: int, b: int| 0 <= a < b < out@.len() implies #[trigger] out@[a] != #[trigger] out@[b] by {
                if b < p {
                    assert(out@[a] == before[a] && out@[b] == before[b]);
                } else if b == p {
                    assert(out@[a] == before[a]);
                } else if a < p {
                    assert(out@[a] == before[a] && out@[b] == before[b - 1]);
                } else if a == p {
                    assert(out@[b] == before[b - 1]);
                } else {
                    assert(out@[a] == before[a - 1] && out@[b] == before[b - 1]);
                }
            }
            assert forall|a: int| 0 <= a < out@.len() implies (#[trigger] out@[a]) < i + 1 by {
                if a < p {
                    assert(out@[a] == before[a]);
                } else if a > p {
                    assert(out@[a] == before[a - 1]);
                }
            }
        }
        i += 1;
    }
    out
}

/// An arrangement of `0..n` lists every position.
pub proof fn lemma_arrangement_covers(out: Seq<usize>, n: nat, v: usize)
    requires
        is_arrangement(out, n),
        v < n,
    ensures
        out.contains(v),
{
    let t = out.map_values(|x: usize| x as int);
    assert(t.no_duplicates()) by {
        assert forall|i: int, j: int| 0 <= i < t.len() && 0 <= j < t.len() && i != j implies t[i] != t[j] by {
            if i < j {
                assert(out[i] != out[j]);
            } else {
                assert(out[j] != out[i]);
            }
        }
    }
    t.unique_seq_to_set();
    vstd::set_lib::lemma_int_range(0, n as int);
    let range = vstd::set_lib::set_int_range(0, n as int);
    assert(t.to_set().subset_of(range)) by {
        assert forall|x: int| t.to_set().contains(x) implies range.contains(x) by {
            assert(t.contains(x));
            let k = choose|k: int| 0 <= k < t.len() && t[k] == x;
            assert(out[k] < n);
        }
    }
    vstd::set_lib::lemma_set_subset_finite(range, t.to_set());
    vstd::set_lib::lemma_subset_equality(t.to_set(), range);
    assert(range.contains(v as int));
    assert(t.to_set().contains(v as int));
    assert(t.contains(v as int));
    let k = choose|k: int| 0 <= k < t.len() && t[k] == v as int;
    assert(out[k] == v);
}

proof fn lemma_arrangement_prefix(
    a: Seq<usize>,
    b: Seq<usize>,
    n: nat,
    bef: spec_fn(usize, usize) -> bool,
    k: int,
)
    requires
        is_arrangement(a, n),
        is_arrangement(b, n),
        forall|i: int, j: int| 0 <= i < j < a.len() ==> bef(#[trigger] a[i], #[trigger] a[j]),
        forall|i: int, j: int| 0 <= i < j < b.len() ==> bef(#[trigger] b[i], #[trigger] b[j]),
        forall|x: usize, y: usize| #[trigger] bef(x, y) ==> !bef(y, x),
        0 <= k <= n,
    ensures
        a.take(k) == b.take(k),
    decreases k,
{
    if k > 0 {
        lemma_arrangement_prefix(a, b, n, bef, k - 1);
        let x = a[k - 1];
        let y = b[k - 1];
        if x != y {
            lemma_arrangement_covers(b, n, x);
            lemma_arrangement_covers(a, n, y);
            let j = choose|j: int| 0 <= j < b.len() && b[j] == x;
            let i = choose|i: int| 0 <= i < a.len() && a[i] == y;
            if j < k - 1 {
                assert(b.take(k - 1)[j] == a.take(k - 1)[j]);
                assert(a[j] == x);
            }
            if i < k - 1 {
                assert(a.take(k - 1)[i] == b.take(k - 1)[i]);
                assert(b[i] == y);
            }
            assert(bef(y, x));
            assert(bef(x, y));
        }
        assert(a.take(k) =~= b.take(k)) by {
            assert forall|q: int| 0 <= q < k implies a.take(k)[q] == b.take(k)[q] by {
                if q < k - 1 {
                    assert(a.take(k - 1)[q] == b.take(k - 1)[q]);
                }
            }
        }
    }
}

/// Two arrangements of `0..n` sorted by the same strict order are the same.
pub proof fn lemma_arrangement_unique(a: Seq<usize>, b: Seq<usize>, n: nat, bef: spec_fn(usize, usize) -> bool)
    requires
        is_arrangement(a, n),
        is_arrangement(b, n),
        forall|i: int, j: int| 0 <= i < j < a.len() ==> bef(#[trigger] a[i], #[trigger] a[j]),
        forall|i: int, j: int| 0 <= i < j < b.len() ==> bef(#[trigger] b[i], #[trigger] b[j]),
        forall|x: usize, y: usize| #[trigger] bef(x, y) ==> !bef(y, x),
    ensures
        a == b,
{
    lemma_arrangement_prefix(a, b, n, bef, n as int);
    assert(a.take(n as int) == a);
    assert(b.take(n as int) == b);
}

/// The order by key pair, then position.
pub open spec fn pair_before(keys: Seq<(Seq<char>, Seq<char>)>) -> spec_fn(usize, usize) -> bool {
    |x: usize, y: usize| pair_lt(keys[x as int], keys[y as int]) || (keys[x as int] == keys[y as int] && x < y)
}

/// Sorting positions by key pair is exact: there is one way to do it.
pub proof fn lemma_sorted_by_pairs_unique(keys: Seq<(Seq<char>, Seq<char>)>, a: Seq<usize>, b: Seq<usize>)
    requires
        sorted_by_pairs(keys, a),
        sorted_by_pairs(keys, b),
    ensures
        a == b,
{
    let bef = pair_before(keys);
    assert forall|x: usize, y: usize| #[trigger] bef(x, y) implies !bef(y, x) by {
        if pair_lt(keys[x as int], keys[y as int]) {
            lemma_pair_lt_asymmetric(keys[x as int], keys[y as int]);
        } else if pair_lt(keys[y as int], keys[x as int]) {
            lemma_pair_lt_asymmetric(keys[y as int], keys[x as int]);
        }
    }
    lemma_arrangement_unique(a, b, keys.len(), bef);
}

/// The order by key from the largest down, then position.
pub open spec fn descending_before(keys: Seq<u64>) -> spec_fn(usize, usize) -> bool {
    |x: usize, y: usize| keys[x as int] > keys[y as int] || (keys[x as int] == keys[y as int] && x < y)
}

/// Sorting positions from the largest key down is exact: there is one way to do it.
pub proof fn lemma_sorted_descending_unique(keys: Seq<u64>, a: Seq<usize>, b: Seq<usize>)
    requires
        sorted_descending(keys, a),
        sorted_descending(keys, b),
    ensures
        a == b,
{
    let bef = descending_before(keys);
    lemma_arrangement_unique(a, b, keys.len(), bef);
}

} // verus!
