//! Set difference between a desired and a current collection.
use vstd::prelude::*;

use crate::strings::string_eq;

verus! {

/// Values that can be compared by what they denote.
pub trait SameValue: View + Sized {
    fn same_value(&self, other: &Self) -> (r: bool)
        ensures
            r == (self@ == other@),
    ;
}

impl SameValue for String {
    fn same_value(&self, other: &Self) -> (r: bool) {
        string_eq(self, other)
    }
}

/// The views of the items of `s`, in order.
pub open spec fn views<T: View>(s: Seq<T>) -> Seq<T::V> {
    s.map_values(|x: T| x@)
}

/// The items of `a` that `b` does not hold, in the order of `a`.
pub open spec fn minus<V>(a: Seq<V>, b: Seq<V>) -> Seq<V> {
    a.filter(absent_from(b))
}

/// Holds of the values that `b` lacks.
pub open spec fn absent_from<V>(b: Seq<V>) -> spec_fn(V) -> bool {
    |x: V| !b.contains(x)
}

/// Whether some item of `v` denotes `x`.
pub fn holds_value<T: SameValue>(v: &Vec<T>, x: &T) -> (r: bool)
    ensures
        r == views(v@).contains(x@),
{
    let mut i: usize = 0;
    while i < v.len()
        invariant
            i <= v@.len(),
            forall|j: int| 0 <= j < i ==> v@[j]@ != x@,
        decreases v@.len() - i,
    {
        if v[i].same_value(x) {
            assert(views(v@)[i as int] == x@);
            return true;
        }
        i = i + 1;
    }
    proof {
        if views(v@).contains(x@) {
            let k = choose|k: int| 0 <= k < views(v@).len() && views(v@)[k] == x@;
            assert(v@[k]@ == x@);
        }
    }
    false
}

/// For each item of `items`, whether `other` lacks it.
fn absent_flags<T: SameValue>(items: &Vec<T>, other: &Vec<T>) -> (r: Vec<bool>)
    ensures
        r@.len() == items@.len(),
        forall|i: int| 0 <= i < items@.len() ==> r@[i] == !views(other@).contains(#[trigger] items@[i]@),
{
    let mut flags: Vec<bool> = Vec::new();
    let mut i: usize = 0;
    while i < items.len()
        invariant
            i <= items@.len(),
            flags@.len() == i,
            forall|j: int| 0 <= j < i ==> flags@[j] == !views(other@).contains(#[trigger] items@[j]@),
        decreases items@.len() - i,
    {
        let present = holds_value(other, &items[i]);
        flags.push(!present);
        i = i + 1;
    }
    flags
}

/// The items of `items` whose flag is set, moved out in order.
fn keep_flagged<T: View>(items: Vec<T>, flags: &Vec<bool>, Ghost(excluded): Ghost<Seq<T::V>>) -> (r:
    Vec<T>)
    requires
        flags@.len() == items@.len(),
        forall|i: int| 0 <= i < items@.len() ==> flags@[i] == !excluded.contains(#[trigger] items@[i]@),
    ensures
        views(r@) == minus(views(items@), excluded),
{
    let ghost orig = items@;
    let ghost pred = absent_from(excluded);
    let mut rest = items;
    let mut out: Vec<T> = Vec::new();
    let n = flags.len();
    let mut k: usize = 0;
    while k < n
        invariant
            n == flags@.len(),
            n == orig.len(),
            pred == absent_from(excluded),
            k <= n,
            rest@ == orig.subrange(k as int, n as int),
            forall|i: int| 0 <= i < orig.len() ==> flags@[i] == !excluded.contains(#[trigger] orig[i]@),
            views(out@) == views(orig.subrange(0, k as int)).filter(pred),
        decreases n - k,
    {
        let x = rest.remove(0);
        let ghost xv = x@;
        assert(x == orig[k as int]);
        let ghost before = out@;
        if flags[k] {
            out.push(x);
        }
        proof {
            assert(orig.subrange(0, k + 1) =~= orig.subrange(0, k as int).push(orig[k as int]));
            assert(views(orig.subrange(0, k + 1)) =~= views(orig.subrange(0, k as int)).push(xv));
            views(orig.subrange(0, k as int)).lemma_filter_push(xv, pred);
            assert(flags@[k as int] == !excluded.contains(orig[k as int]@));
            assert(pred(xv) == flags@[k as int]);
            if flags@[k as int] {
                assert(views(out@) =~= views(before).push(xv));
            } else {
                assert(views(out@) =~= views(before));
            }
            assert(views(out@) == views(orig.subrange(0, k + 1)).filter(pred));
            assert(rest@ =~= orig.subrange(k + 1, n as int));
        }
        k = k + 1;
    }
    proof {
        assert(orig.subrange(0, n as int) =~= orig);
    }
    out
}

/// Splits the difference between `new_grants` (desired) and `old_grants`
/// (current) into what to add and what to remove.
///
/// What to add is every desired item that the current collection lacks, in
/// desired order; what to remove is every current item that the desired
/// collection lacks, in current order. Items are compared by value.
pub fn diff_grant<T: SameValue>(new_grants: Vec<T>, old_grants: Vec<T>) -> (r: (Vec<T>, Vec<T>))
    ensures
        views(r.0@) == minus(views(new_grants@), views(old_grants@)),
        views(r.1@) == minus(views(old_grants@), views(new_grants@)),
{
    let ghost new_views = views(new_grants@);
    let ghost old_views = views(old_grants@);
    let add_flags = absent_flags(&new_grants, &old_grants);
    let remove_flags = absent_flags(&old_grants, &new_grants);
    let grants_to_add = keep_flagged(new_grants, &add_flags, Ghost(old_views));
    let grants_to_remove = keep_flagged(old_grants, &remove_flags, Ghost(new_views));
    (grants_to_add, grants_to_remove)
}

/// No item to add is already current, and no item to remove is desired.
pub proof fn lemma_diff_disjoint<V>(desired: Seq<V>, current: Seq<V>)
    ensures
        forall|x: V| minus(desired, current).contains(x) ==> !current.contains(x),
        forall|x: V| minus(current, desired).contains(x) ==> !desired.contains(x),
{
    assert forall|x: V| minus(desired, current).contains(x) implies !current.contains(x) by {
        desired.lemma_filter_contains_rev(absent_from(current), x);
    }
    assert forall|x: V| minus(current, desired).contains(x) implies !desired.contains(x) by {
        current.lemma_filter_contains_rev(absent_from(desired), x);
    }
}

/// Diffing a collection against itself leaves nothing to add or remove.
pub proof fn lemma_diff_identical<V>(d: Seq<V>)
    ensures
        minus(d, d) == Seq::<V>::empty(),
{
    lemma_diff_disjoint(d, d);
    let m = minus(d, d);
    if m.len() > 0 {
        assert(m.contains(m[0]));
        d.lemma_filter_contains_rev(absent_from(d), m[0]);
    }
    assert(m =~= Seq::<V>::empty());
}

/// Against an empty current collection everything desired is added, and
/// nothing is removed.
pub proof fn lemma_diff_from_empty<V>(d: Seq<V>)
    ensures
        minus(d, Seq::<V>::empty()) == d,
        minus(Seq::<V>::empty(), d) == Seq::<V>::empty(),
    decreases d.len(),
{
    let p = absent_from(Seq::<V>::empty());
    if d.len() == 0 {
        assert(d.filter(p) =~= d);
    } else {
        lemma_diff_from_empty(d.drop_last());
        assert(d.drop_last().push(d.last()) =~= d);
        d.drop_last().lemma_filter_push(d.last(), p);
    }
    assert(Seq::<V>::empty().filter(absent_from(d)) =~= Seq::<V>::empty());
}

/// With nothing desired, nothing is added and everything current is removed.
pub proof fn lemma_diff_to_empty<V>(c: Seq<V>)
    ensures
        minus(Seq::<V>::empty(), c) == Seq::<V>::empty(),
        minus(c, Seq::<V>::empty()) == c,
{
    lemma_diff_from_empty(c);
}

} // verus!
