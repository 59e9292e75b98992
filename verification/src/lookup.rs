//! Finding records in the application's collections: the first record that matches.
use vstd::prelude::*;

use crate::model::{
    ItemCategory, ItemInspection, Machine, MachineItem, PhotoAsset, RestockRequest, ServiceOrder,
    ServiceOrderTask, StockItem, Supplier, UserAccount,
};
use crate::text::str_equal;

verus! {

/// `i` is the position of the first element of `s` that satisfies `p`.
pub open spec fn is_first<T>(s: Seq<T>, p: spec_fn(T) -> bool, i: int) -> bool {
    &&& 0 <= i < s.len()
    &&& p(s[i])
    &&& forall|j: int| 0 <= j < i ==> !p(#[trigger] s[j])
}

/// The position of the first element of `s` that satisfies `p`, if any does.
pub open spec fn first_index<T>(s: Seq<T>, p: spec_fn(T) -> bool) -> Option<int> {
    if exists|i: int| is_first(s, p, i) {
        Some(choose|i: int| is_first(s, p, i))
    } else {
        None
    }
}

/// The first match is unique, so `first_index` finds exactly it; with no match it finds
/// nothing.
pub proof fn lemma_first_index<T>(s: Seq<T>, p: spec_fn(T) -> bool)
    ensures
        forall|i: int| is_first(s, p, i) ==> first_index(s, p) == Some(i),
        (forall|j: int| 0 <= j < s.len() ==> !p(#[trigger] s[j])) ==> first_index(s, p) is None,
        first_index(s, p) matches Some(i) ==> is_first(s, p, i),
{
    assert forall|i: int| is_first(s, p, i) implies first_index(s, p) == Some(i) by {
        let k = choose|k: int| is_first(s, p, k);
        assert(is_first(s, p, k));
        if k < i {
            assert(!p(s[k]));
        }
        if i < k {
            assert(!p(s[i]));
        }
    }
    if (forall|j: int| 0 <= j < s.len() ==> !p(#[trigger] s[j])) {
        if exists|i: int| is_first(s, p, i) {
            let k = choose|k: int| is_first(s, p, k);
            assert(p(s[k]));
        }
    }
}

/// The first match in `a + b` is the first in `a`, or else the first in `b` after `a`.
pub proof fn lemma_first_index_concat<T>(a: Seq<T>, b: Seq<T>, p: spec_fn(T) -> bool)
    ensures
        first_index(a + b, p) == match first_index(a, p) {
            Some(i) => Some(i),
            None => match first_index(b, p) {
                Some(j) => Some(a.len() + j),
                None => None,
            },
        },
{
    let s = a + b;
    lemma_first_index(a, p);
    lemma_first_index(b, p);
    lemma_first_index(s, p);
    match first_index(a, p) {
        Some(i) => {
            assert(is_first(s, p, i)) by {
                assert(s[i] == a[i]);
                assert forall|j: int| 0 <= j < i implies !p(#[trigger] s[j]) by {
                    assert(s[j] == a[j]);
                }
            }
        },
        None => {
            assert forall|j: int| 0 <= j < a.len() implies !p(#[trigger] a[j]) by {
                if p(a[j]) {
                    lemma_first_index_exists(a, p, j);
                }
            }
            match first_index(b, p) {
                Some(j) => {
                    assert(is_first(s, p, a.len() + j)) by {
                        assert(s[a.len() + j] == b[j]);
                        assert forall|k: int| 0 <= k < a.len() + j implies !p(#[trigger] s[k]) by {
                            if k < a.len() {
                                assert(s[k] == a[k]);
                            } else {
                                assert(s[k] == b[k - a.len()]);
                            }
                        }
                    }
                },
                None => {
                    assert forall|k: int| 0 <= k < s.len() implies !p(#[trigger] s[k]) by {
                        if k < a.len() {
                            assert(s[k] == a[k]);
                        } else {
                            assert(s[k] == b[k - a.len()]);
                            if p(b[k - a.len()]) {
                                lemma_first_index_exists(b, p, k - a.len());
                            }
                        }
                    }
                },
            }
        },
    }
}

/// When some element satisfies `p`, there is a first one.
pub proof fn lemma_first_index_exists<T>(s: Seq<T>, p: spec_fn(T) -> bool, k: int)
    requires
        0 <= k < s.len(),
        p(s[k]),
    ensures
        first_index(s, p) is Some,
    decreases k,
{
    if forall|j: int| 0 <= j < k ==> !p(#[trigger] s[j]) {
        assert(is_first(s, p, k));
        lemma_first_index(s, p);
    } else {
        let j = choose|j: int| 0 <= j < k && p(#[trigger] s[j]);
        lemma_first_index_exists(s, p, j);
    }
}

/// A record with an identifier.
pub trait Identified {
    /// The identifier.
    spec fn id_view(&self) -> Seq<char>;

    /// The identifier, borrowed.
    fn id_str(&self) -> (r: &str)
        ensures
            r@ == self.id_view(),
    ;
}

impl Identified for ItemCategory {
    open spec fn id_view(&self) -> Seq<char> {
        self.id@
    }

    fn id_str(&self) -> (r: &str) {
        self.id.as_str()
    }
}

impl Identified for Machine {
    open spec fn id_view(&self) -> Seq<char> {
        self.id@
    }

    fn id_str(&self) -> (r: &str) {
        self.id.as_str()
    }
}

impl Identified for MachineItem {
    open spec fn id_view(&self) -> Seq<char> {
        self.id@
    }

    fn id_str(&self) -> (r: &str) {
        self.id.as_str()
    }
}

impl Identified for PhotoAsset {
    open spec fn id_view(&self) -> Seq<char> {
        self.id@
    }

    fn id_str(&self) -> (r: &str) {
        self.id.as_str()
    }
}

impl Identified for ServiceOrder {
    open spec fn id_view(&self) -> Seq<char> {
        self.id@
    }

    fn id_str(&self) -> (r: &str) {
        self.id.as_str()
    }
}

impl Identified for ItemInspection {
    open spec fn id_view(&self) -> Seq<char> {
        self.id@
    }

    fn id_str(&self) -> (r: &str) {
        self.id.as_str()
    }
}

impl Identified for RestockRequest {
    open spec fn id_view(&self) -> Seq<char> {
        self.id@
    }

    fn id_str(&self) -> (r: &str) {
        self.id.as_str()
    }
}

impl Identified for StockItem {
    open spec fn id_view(&self) -> Seq<char> {
        self.id@
    }

    fn id_str(&self) -> (r: &str) {
        self.id.as_str()
    }
}

impl Identified for Supplier {
    open spec fn id_view(&self) -> Seq<char> {
        self.id@
    }

    fn id_str(&self) -> (r: &str) {
        self.id.as_str()
    }
}

impl Identified for UserAccount {
    open spec fn id_view(&self) -> Seq<char> {
        self.id@
    }

    fn id_str(&self) -> (r: &str) {
        self.id.as_str()
    }
}

impl Identified for ServiceOrderTask {
    open spec fn id_view(&self) -> Seq<char> {
        self.id@
    }

    fn id_str(&self) -> (r: &str) {
        self.id.as_str()
    }
}

/// The test "has identifier `id`".
pub open spec fn id_is<T: Identified>(id: Seq<char>) -> spec_fn(T) -> bool {
    |t: T| t.id_view() == id
}

/// The position of the first record of `v` with identifier `id`.
pub open spec fn index_of_id<T: Identified>(v: Seq<T>, id: Seq<char>) -> Option<int> {
    first_index(v, id_is::<T>(id))
}

/// Whether some record of `v` has identifier `id`.
pub open spec fn has_id<T: Identified>(v: Seq<T>, id: Seq<char>) -> bool {
    index_of_id(v, id) is Some
}

/// Some record of `v` has identifier `id`.
pub open spec fn some_has_id<T: Identified>(v: Seq<T>, id: Seq<char>) -> bool {
    exists|k: int| 0 <= k < v.len() && (#[trigger] v[k]).id_view() == id
}

/// Whether some record of `v` has identifier `id`.
pub fn contains_id<T: Identified>(v: &Vec<T>, id: &str) -> (r: bool)
    ensures
        r == some_has_id(v@, id@),
{
    let mut k: usize = 0;
    while k < v.len()
        invariant
            k <= v@.len(),
            forall|j: int| 0 <= j < k ==> (#[trigger] v@[j]).id_view() != id@,
        decreases v@.len() - k,
    {
        if str_equal(v[k].id_str(), id) {
            assert(v@[k as int].id_view() == id@);
            return true;
        }
        k += 1;
    }
    false
}

/// Finds the first record of `v` with identifier `id`.
pub fn position_of_id<T: Identified>(v: &Vec<T>, id: &str) -> (r: Option<usize>)
    ensures
        match r {
            Some(i) => index_of_id(v@, id@) == Some(i as int) && i < v@.len(),
            None => index_of_id(v@, id@) is None,
        },
{
    let ghost p = id_is::<T>(id@);
    let mut i: usize = 0;
    while i < v.len()
        invariant
            i <= v@.len(),
            p == id_is::<T>(id@),
            forall|j: int| 0 <= j < i ==> !p(#[trigger] v@[j]),
        decreases v@.len() - i,
    {
        if str_equal(v[i].id_str(), id) {
            proof {
                assert(is_first(v@, p, i as int));
                lemma_first_index(v@, p);
            }
            return Some(i);
        }
        i += 1;
    }
    proof {
        lemma_first_index(v@, p);
    }
    None
}

} // verus!
