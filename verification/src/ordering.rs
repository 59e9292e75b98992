//! Stable ordering of records by a numeric key (guide steps and custom fields by their
//! `order`).
use vstd::prelude::*;

use crate::model::{CustomFieldDefinition, MaintenanceGuideStep};

verus! {

/// A record ordered by a number.
pub trait Keyed: Sized {
    /// The number the record is ordered by.
    spec fn key(&self) -> u32;

    /// The number the record is ordered by.
    fn key_of(&self) -> (r: u32)
        ensures
            r == self.key(),
    ;
}

impl Keyed for MaintenanceGuideStep {
    open spec fn key(&self) -> u32 {
        self.order
    }

    fn key_of(&self) -> (r: u32) {
        self.order
    }
}

impl Keyed for CustomFieldDefinition {
    open spec fn key(&self) -> u32 {
        self.order
    }

    fn key_of(&self) -> (r: u32) {
        self.order
    }
}

/// The test "has key `v`".
pub open spec fn key_is<T: Keyed>(v: u32) -> spec_fn(T) -> bool {
    |x: T| x.key() == v
}

/// The keys never decrease along `s`.
pub open spec fn sorted_by_key<T: Keyed>(s: Seq<T>) -> bool {
    forall|i: int, j: int| 0 <= i < j < s.len() ==> (#[trigger] s[i]).key() <= (#[trigger] s[j]).key()
}

/// `output` is `input` sorted by key, records with equal keys keeping their order.
pub open spec fn is_stable_sort<T: Keyed>(input: Seq<T>, output: Seq<T>) -> bool {
    &&& sorted_by_key(output)
    &&& forall|v: u32| #[trigger] output.filter(key_is::<T>(v)) == input.filter(key_is::<T>(v))
}

proof fn lemma_filter_single<T>(x: T, pred: spec_fn(T) -> bool)
    ensures
        seq![x].filter(pred) == (if pred(x) {
            seq![x]
        } else {
            Seq::<T>::empty()
        }),
{
    reveal(Seq::filter);
    assert(seq![x].drop_last() == Seq::<T>::empty());
    assert(Seq::<T>::empty().filter(pred) == Seq::<T>::empty());
}

proof fn lemma_filter_none<T>(s: Seq<T>, pred: spec_fn(T) -> bool)
    requires
        forall|j: int| 0 <= j < s.len() ==> !pred(#[trigger] s[j]),
    ensures
        s.filter(pred) == Seq::<T>::empty(),
    decreases s.len(),
{
    reveal(Seq::filter);
    if s.len() > 0 {
        lemma_filter_none(s.drop_last(), pred);
    }
}

proof fn lemma_insert_filter<T: Keyed>(out: Seq<T>, p: int, x: T, v: u32)
    requires
        0 <= p <= out.len(),
        forall|j: int| p <= j < out.len() ==> (#[trigger] out[j]).key() > x.key(),
    ensures
        out.insert(p, x).filter(key_is::<T>(v)) == if x.key() == v {
            out.filter(key_is::<T>(v)).push(x)
        } else {
            out.filter(key_is::<T>(v))
        },
{
    let pred = key_is::<T>(v);
    let a = out.take(p);
    let b = out.skip(p);
    assert(out == a + b);
    assert(out.insert(p, x) == a + seq![x] + b);
    Seq::filter_distributes_over_add(a + seq![x], b, pred);
    Seq::filter_distributes_over_add(a, seq![x], pred);
    Seq::filter_distributes_over_add(a, b, pred);
    lemma_filter_single(x, pred);
    if x.key() == v {
        assert forall|j: int| 0 <= j < b.len() implies !pred(#[trigger] b[j]) by {
            assert(b[j] == out[p + j]);
        }
        lemma_filter_none(b, pred);
        assert(a.filter(pred) + seq![x] == a.filter(pred).push(x));
        assert(b.filter(pred) == Seq::<T>::empty());
        assert(a.filter(pred) + b.filter(pred) == a.filter(pred));
    } else {
        assert(a.filter(pred) + Seq::<T>::empty() == a.filter(pred));
    }
}

/// Sorts records by key; records with equal keys keep their order (as `sort_by_key`).
pub fn stable_sort_by_key<T: Keyed>(v: Vec<T>) -> (r: Vec<T>)
    ensures
        is_stable_sort(v@, r@),
{
    let ghost input = v@;
    let n = v.len();
    let mut rest = v;
    let mut out: Vec<T> = Vec::new();
    let mut i: usize = 0;
    while rest.len() > 0
        invariant
            i + rest@.len() == input.len(),
            input.len() == n,
            rest@ == input.skip(i as int),
            sorted_by_key(out@),
            forall|w: u32| #[trigger] out@.filter(key_is::<T>(w)) == input.take(i as int).filter(key_is::<T>(w)),
        decreases rest@.len(),
    {
        let x = rest.remove(0);
        let k = x.key_of();
        let mut p: usize = out.len();
        while p > 0 && out[p - 1].key_of() > k
            invariant
                p <= out@.len(),
                forall|j: int| p <= j < out@.len() ==> (#[trigger] out@[j]).key() > k,
            decreases p,
        {
            p -= 1;
        }
        let ghost before = out@;
        proof {
            assert(x == input[i as int]);
            assert forall|w: u32| #[trigger] before.insert(p as int, x).filter(key_is::<T>(w))
                == input.take(i + 1).filter(key_is::<T>(w)) by {
                lemma_insert_filter(before, p as int, x, w);
                let t = input.take(i + 1);
                assert(t.drop_last() == input.take(i as int));
                assert(t.last() == x);
                reveal(Seq::filter);
            }
        }
        out.insert(p, x);
        proof {
            assert(out@ == before.insert(p as int, x));
            assert forall|a: int, b: int| 0 <= a < b < out@.len() implies (#[trigger] out@[a]).key()
                <= (#[trigger] out@[b]).key() by {
                if b < p {
                    assert(out@[a] == before[a] && out@[b] == before[b]);
                } else if b == p {
                    assert(out@[a] == before[a]);
                    if p > 0 {
                        assert(before[p - 1].key() <= k);
                        if a < p - 1 {
                            assert(before[a].key() <= before[p - 1].key());
                        }
                    }
                } else if a < p {
                    assert(out@[a] == before[a] && out@[b] == before[b - 1]);
                    if a < b - 1 {
                        assert(before[a].key() <= before[b - 1].key());
                    }
                } else if a == p {
                    assert(out@[b] == before[b - 1]);
                } else {
                    assert(out@[a] == before[a - 1] && out@[b] == before[b - 1]);
                }
            }
            assert(rest@ == input.skip(i + 1));
        }
        i += 1;
    }
    proof {
        assert(input.take(i as int) == input);
    }
    out
}

} // verus!
