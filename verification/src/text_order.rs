//! The order of texts (`str`'s order: UTF-8 keeps the order of code points, so comparing
//! characters one by one orders texts as comparing their bytes does) and sorted sets of
//! distinct texts.
use vstd::prelude::*;

use crate::text::chars_of;

verus! {

/// `a` comes before `b`: at the first position where they differ `a` has the smaller
/// character, or `a` is a proper prefix of `b`.
pub open spec fn text_lt(a: Seq<char>, b: Seq<char>) -> bool
    decreases a.len(),
{
    if a.len() == 0 {
        b.len() > 0
    } else if b.len() == 0 {
        false
    } else if a[0] != b[0] {
        a[0] < b[0]
    } else {
        text_lt(a.drop_first(), b.drop_first())
    }
}

/// No text comes before itself.
pub proof fn lemma_text_lt_irreflexive(a: Seq<char>)
    ensures
        !text_lt(a, a),
    decreases a.len(),
{
    if a.len() > 0 {
        lemma_text_lt_irreflexive(a.drop_first());
    }
}

/// The order is transitive.
pub proof fn lemma_text_lt_transitive(a: Seq<char>, b: Seq<char>, c: Seq<char>)
    requires
        text_lt(a, b),
        text_lt(b, c),
    ensures
        text_lt(a, c),
    decreases a.len(),
{
    if a.len() > 0 && b.len() > 0 && c.len() > 0 && a[0] == b[0] && b[0] == c[0] {
        lemma_text_lt_transitive(a.drop_first(), b.drop_first(), c.drop_first());
    }
}

/// Of two different texts one comes before the other.
pub proof fn lemma_text_lt_total(a: Seq<char>, b: Seq<char>)
    requires
        a != b,
    ensures
        text_lt(a, b) || text_lt(b, a),
    decreases a.len(),
{
    if a.len() > 0 && b.len() > 0 {
        if a[0] == b[0] {
            if a.drop_first() == b.drop_first() {
                assert(a == seq![a[0]] + a.drop_first());
                assert(b == seq![b[0]] + b.drop_first());
            }
            lemma_text_lt_total(a.drop_first(), b.drop_first());
        }
    } else if a.len() == 0 && b.len() == 0 {
        assert(a == b);
    }
}

/// The order never holds both ways.
pub proof fn lemma_text_lt_asymmetric(a: Seq<char>, b: Seq<char>)
    requires
        text_lt(a, b),
    ensures
        !text_lt(b, a),
{
    if text_lt(b, a) {
        lemma_text_lt_transitive(a, b, a);
        lemma_text_lt_irreflexive(a);
    }
}

fn chars_less(a: &Vec<char>, b: &Vec<char>, from: usize) -> (r: bool)
    requires
        from <= a@.len(),
        from <= b@.len(),
    ensures
        r == text_lt(a@.skip(from as int), b@.skip(from as int)),
    decreases a@.len() - from,
{
    let ghost x = a@.skip(from as int);
    let ghost y = b@.skip(from as int);
    if from == a.len() {
        assert(x.len() == 0);
        from < b.len()
    } else if from == b.len() {
        false
    } else {
        assert(x[0] == a@[from as int] && y[0] == b@[from as int]);
        if a[from] != b[from] {
            a[from] < b[from]
        } else {
            assert(x.drop_first() == a@.skip(from + 1));
            assert(y.drop_first() == b@.skip(from + 1));
            chars_less(a, b, from + 1)
        }
    }
}

/// Whether `a` comes before `b`.
pub fn text_less(a: &str, b: &str) -> (r: bool)
    ensures
        r == text_lt(a@, b@),
{
    let x = chars_of(a);
    let y = chars_of(b);
    assert(x@.skip(0) == x@);
    assert(y@.skip(0) == y@);
    chars_less(&x, &y, 0)
}

proof fn lemma_push_contains(s: Seq<Seq<char>>, e: Seq<char>, t: Seq<char>)
    ensures
        s.push(e).contains(t) <==> (s.contains(t) || t == e),
{
    let p = s.push(e);
    if p.contains(t) {
        let k = choose|k: int| 0 <= k < p.len() && p[k] == t;
        if k < s.len() {
            assert(s[k] == t);
        }
    }
    if s.contains(t) {
        let k = choose|k: int| 0 <= k < s.len() && s[k] == t;
        assert(p[k] == t);
    }
    if t == e {
        assert(p[s.len() as int] == e);
    }
}

/// Each text comes before the next one: sorted, and no text twice.
pub open spec fn strictly_sorted(s: Seq<Seq<char>>) -> bool {
    forall|i: int, j: int| 0 <= i < j < s.len() ==> text_lt(#[trigger] s[i], #[trigger] s[j])
}

/// The texts, as plain character sequences.
pub open spec fn views(s: Seq<String>) -> Seq<Seq<char>> {
    s.map_values(|t: String| t@)
}

/// `out` holds the distinct texts of `input`, in increasing order (what iterating a
/// `BTreeSet` of them gives).
pub open spec fn is_sorted_set(input: Seq<Seq<char>>, out: Seq<Seq<char>>) -> bool {
    &&& strictly_sorted(out)
    &&& forall|t: Seq<char>| input.contains(t) <==> out.contains(t)
}

/// Two sorted sets of the same texts are equal.
pub proof fn lemma_sorted_set_unique(a: Seq<Seq<char>>, b: Seq<Seq<char>>)
    requires
        strictly_sorted(a),
        strictly_sorted(b),
        forall|t: Seq<char>| a.contains(t) <==> b.contains(t),
    ensures
        a == b,
    decreases a.len() + b.len(),
{
    if a.len() > 0 && b.len() > 0 {
        let x = a[0];
        let y = b[0];
        assert(a.contains(x));
        assert(b.contains(y));
        if x != y {
            lemma_text_lt_total(x, y);
            if text_lt(x, y) {
                let k = choose|k: int| 0 <= k < b.len() && b[k] == x;
                if k > 0 {
                    assert(text_lt(b[0], b[k]));
                    lemma_text_lt_asymmetric(x, y);
                }
            } else {
                let k = choose|k: int| 0 <= k < a.len() && a[k] == y;
                if k > 0 {
                    assert(text_lt(a[0], a[k]));
                    lemma_text_lt_asymmetric(y, x);
                }
            }
        }
        assert(x == y);
        let a1 = a.drop_first();
        let b1 = b.drop_first();
        assert forall|t: Seq<char>| a1.contains(t) <==> b1.contains(t) by {
            if a1.contains(t) {
                let k = choose|k: int| 0 <= k < a1.len() && a1[k] == t;
                assert(a[k + 1] == t);
                assert(text_lt(a[0], a[k + 1]));
                lemma_text_lt_irreflexive(t);
                assert(b.contains(t));
                let m = choose|m: int| 0 <= m < b.len() && b[m] == t;
                assert(m != 0);
                assert(b1[m - 1] == t);
            }
            if b1.contains(t) {
                let k = choose|k: int| 0 <= k < b1.len() && b1[k] == t;
                assert(b[k + 1] == t);
                assert(text_lt(b[0], b[k + 1]));
                lemma_text_lt_irreflexive(t);
                assert(a.contains(t));
                let m = choose|m: int| 0 <= m < a.len() && a[m] == t;
                assert(m != 0);
                assert(a1[m - 1] == t);
            }
        }
        lemma_sorted_set_unique(a1, b1);
        assert(a == seq![x] + a1);
        assert(b == seq![y] + b1);
    } else if a.len() > 0 {
        assert(a.contains(a[0]));
    } else if b.len() > 0 {
        assert(b.contains(b[0]));
    }
}

/// The distinct texts of `v`, in increasing order.
pub fn sorted_set(v: &Vec<String>) -> (r: Vec<String>)
    ensures
        is_sorted_set(views(v@), views(r@)),
{
    let mut out: Vec<String> = Vec::new();
    let mut i: usize = 0;
    while i < v.len()
        invariant
            i <= v@.len(),
            strictly_sorted(views(out@)),
            forall|t: Seq<char>| views(v@.take(i as int)).contains(t) <==> views(out@).contains(t),
        decreases v@.len() - i,
    {
        let x = &v[i];
        let ghost before = views(out@);
        let mut p: usize = 0;
        while p < out.len() && text_less(out[p].as_str(), x.as_str())
            invariant
                p <= out@.len(),
                forall|j: int| 0 <= j < p ==> text_lt(#[trigger] views(out@)[j], x@),
            decreases out@.len() - p,
        {
            p += 1;
        }
        let present = p < out.len() && crate::text::str_equal(out[p].as_str(), x.as_str());
        let ghost seen = views(v@.take(i as int));
        proof {
            assert(views(v@.take(i + 1)) == seen.push(x@));
            assert forall|t: Seq<char>| #[trigger] views(v@.take(i + 1)).contains(t) <==> (seen.contains(t)
                || t == x@) by {
                lemma_push_contains(seen, x@, t);
            }
        }
        if !present {
            let ghost xv = x@;
            out.insert(p, x.clone());
            proof {
                assert(views(out@) == before.insert(p as int, xv)) by {
                    assert(out@.len() == before.len() + 1);
                    assert forall|j: int| 0 <= j < out@.len() implies #[trigger] views(out@)[j]
                        == before.insert(p as int, xv)[j] by {
                        if j == p as int {
                            assert(out@[j]@ == xv);
                        }
                    }
                }
                if p < before.len() {
                    lemma_text_lt_total(before[p as int], xv);
                }
                assert forall|a: int, b: int| 0 <= a < b < views(out@).len() implies text_lt(
                    #[trigger] views(out@)[a],
                    #[trigger] views(out@)[b],
                ) by {
                    let s = views(out@);
                    if b < p {
                        assert(s[a] == before[a] && s[b] == before[b]);
                    } else if b == p {
                        assert(s[a] == before[a]);
                    } else if a < p {
                        assert(s[a] == before[a] && s[b] == before[b - 1]);
                        assert(text_lt(before[a], xv));
                        if b - 1 > p {
                            assert(text_lt(before[p as int], before[b - 1]));
                            lemma_text_lt_transitive(xv, before[p as int], before[b - 1]);
                        }
                        lemma_text_lt_transitive(before[a], xv, before[b - 1]);
                    } else if a == p {
                        assert(s[b] == before[b - 1]);
                        if b - 1 > p {
                            lemma_text_lt_transitive(xv, before[p as int], before[b - 1]);
                        }
                    } else {
                        assert(s[a] == before[a - 1] && s[b] == before[b - 1]);
                    }
                }
                assert forall|t: Seq<char>| #[trigger] views(v@.take(i + 1)).contains(t) <==> views(
                    out@,
                ).contains(t) by {
                    let s = views(out@);
                    assert(seen.contains(t) <==> before.contains(t));
                    if before.contains(t) {
                        let k = choose|k: int| 0 <= k < before.len() && before[k] == t;
                        if k < p {
                            assert(s[k] == t);
                        } else {
                            assert(s[k + 1] == t);
                        }
                    }
                    if s.contains(t) {
                        let k = choose|k: int| 0 <= k < s.len() && s[k] == t;
                        if k < p {
                            assert(before[k] == t);
                        } else if k > p {
                            assert(before[k - 1] == t);
                        }
                    }
                    if t == xv {
                        assert(s[p as int] == xv);
                    }
                }
            }
        } else {
            proof {
                assert(before[p as int] == x@);
                assert(before.contains(x@));
                assert forall|t: Seq<char>| #[trigger] views(v@.take(i + 1)).contains(t) <==> views(
                    out@,
                ).contains(t) by {
                    assert(seen.contains(t) <==> before.contains(t));
                }
            }
        }
        i += 1;
    }
    proof {
        assert(v@.take(i as int) == v@);
    }
    out
}

} // verus!
