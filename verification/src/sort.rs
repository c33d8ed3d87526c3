//! Stable sorting by a strict order.

use vstd::prelude::*;

verus! {

/// Whether `lt` orders strictly, with ties that behave like equals.
pub open spec fn weak_order<T>(lt: spec_fn(T, T) -> bool) -> bool {
    &&& forall|a: T| !#[trigger] lt(a, a)
    &&& forall|a: T, b: T, c: T| #[trigger] lt(a, b) && #[trigger] lt(b, c) ==> lt(a, c)
    &&& forall|a: T, b: T, c: T| #![trigger lt(a, c), lt(a, b)] #![trigger lt(a, c), lt(b, c)] lt(a, c) ==> lt(a, b) || lt(b, c)
}

/// Where `x` goes among `s` so that it stands behind its equals.
pub open spec fn slot<T>(s: Seq<T>, x: T, lt: spec_fn(T, T) -> bool) -> int
    decreases s.len(),
{
    if s.len() > 0 && lt(x, s.last()) {
        slot(s.drop_last(), x, lt)
    } else {
        s.len() as int
    }
}

/// The items of `s` in the order of `lt`; those that tie keep the order they had.
pub open spec fn sorted<T>(s: Seq<T>, lt: spec_fn(T, T) -> bool) -> Seq<T>
    decreases s.len(),
{
    if s.len() == 0 {
        Seq::empty()
    } else {
        let t = sorted(s.drop_last(), lt);
        t.insert(slot(t, s.last(), lt), s.last())
    }
}

/// Whether no item comes before one that stands in front of it.
pub open spec fn in_order<T>(s: Seq<T>, lt: spec_fn(T, T) -> bool) -> bool {
    forall|i: int, j: int| 0 <= i < j < s.len() ==> !lt(#[trigger] s[j], #[trigger] s[i])
}

proof fn lemma_slot<T>(s: Seq<T>, x: T, lt: spec_fn(T, T) -> bool)
    ensures
        0 <= slot(s, x, lt) <= s.len(),
        slot(s, x, lt) > 0 ==> !lt(x, s[slot(s, x, lt) - 1]),
        forall|i: int| slot(s, x, lt) <= i < s.len() ==> lt(x, #[trigger] s[i]),
    decreases s.len(),
{
    if s.len() > 0 && lt(x, s.last()) {
        lemma_slot(s.drop_last(), x, lt);
        assert forall|i: int| slot(s, x, lt) <= i < s.len() implies lt(x, #[trigger] s[i]) by {
            if i < s.len() - 1 {
                assert(s.drop_last()[i] == s[i]);
            }
        }
    }
}

proof fn lemma_slot_is<T>(s: Seq<T>, x: T, lt: spec_fn(T, T) -> bool, p: int)
    requires
        0 <= p <= s.len(),
        p > 0 ==> !lt(x, s[p - 1]),
        forall|i: int| p <= i < s.len() ==> lt(x, #[trigger] s[i]),
    ensures
        slot(s, x, lt) == p,
    decreases s.len(),
{
    if p < s.len() {
        assert(lt(x, s[s.len() - 1]));
        assert(p > 0 ==> s.drop_last()[p - 1] == s[p - 1]);
        lemma_slot_is(s.drop_last(), x, lt, p);
    }
}

/// Sorting puts the items in order and keeps each of them.
pub proof fn lemma_sorted<T>(s: Seq<T>, lt: spec_fn(T, T) -> bool)
    requires
        weak_order(lt),
    ensures
        in_order(sorted(s, lt), lt),
        sorted(s, lt).to_multiset() == s.to_multiset(),
        sorted(s, lt).len() == s.len(),
    decreases s.len(),
{
    broadcast use vstd::seq_lib::group_to_multiset_ensures;

    if s.len() > 0 {
        let t = sorted(s.drop_last(), lt);
        let x = s.last();
        let p = slot(t, x, lt);
        lemma_sorted(s.drop_last(), lt);
        lemma_slot(t, x, lt);
        let r = t.insert(p, x);
        assert forall|i: int, j: int| 0 <= i < j < r.len() implies !lt(#[trigger] r[j], #[trigger] r[i]) by {
            let a = if i < p { t[i] } else if i == p { x } else { t[i - 1] };
            let b = if j < p { t[j] } else if j == p { x } else { t[j - 1] };
            assert(r[i] == a && r[j] == b);
            if j == p {
                if i < p - 1 {
                    assert(!lt(t[p - 1], t[i]));
                    assert(!lt(x, t[p - 1]));
                }
            } else if i == p {
                assert(lt(x, t[j - 1]));
                assert(!lt(x, x));
            }
        }
        assert(s =~= s.drop_last().push(x));
    } else {
        assert(s =~= Seq::empty());
    }
}

/// Sorting keeps the order of items that tie with one another.
pub proof fn lemma_stable<T>(s: Seq<T>, lt: spec_fn(T, T) -> bool, same: spec_fn(T) -> bool)
    requires
        weak_order(lt),
        forall|a: T, b: T| #[trigger] same(a) && #[trigger] same(b) ==> !lt(a, b),
    ensures
        sorted(s, lt).filter(same) == s.filter(same),
    decreases s.len(),
{
    reveal(Seq::filter);
    if s.len() > 0 {
        let t = sorted(s.drop_last(), lt);
        let x = s.last();
        let p = slot(t, x, lt);
        lemma_stable(s.drop_last(), lt, same);
        lemma_slot(t, x, lt);
        let r = t.insert(p, x);
        assert(r =~= t.take(p) + seq![x] + t.skip(p));
        assert(t =~= t.take(p) + t.skip(p));
        Seq::filter_distributes_over_add(t.take(p) + seq![x], t.skip(p), same);
        Seq::filter_distributes_over_add(t.take(p), seq![x], same);
        Seq::filter_distributes_over_add(t.take(p), t.skip(p), same);
        assert(s =~= s.drop_last() + seq![x]);
        Seq::filter_distributes_over_add(s.drop_last(), seq![x], same);
        if same(x) {
            let u = t.skip(p);
            assert forall|i: int| 0 <= i < u.len() implies !same(#[trigger] u[i]) by {
                assert(u[i] == t[p + i]);
                assert(lt(x, t[p + i]));
            }
            lemma_filter_none(u, same);
            assert(r.filter(same) =~= s.filter(same));
        } else {
            assert(seq![x].filter(same) =~= Seq::<T>::empty()) by {
                lemma_filter_none(seq![x], same);
            }
            assert(r.filter(same) =~= s.filter(same));
        }
    }
}

proof fn lemma_filter_none<T>(s: Seq<T>, keep: spec_fn(T) -> bool)
    requires
        forall|i: int| 0 <= i < s.len() ==> !keep(#[trigger] s[i]),
    ensures
        s.filter(keep) == Seq::<T>::empty(),
    decreases s.len(),
{
    reveal(Seq::filter);
    if s.len() > 0 {
        assert(!keep(s[s.len() - 1]));
        assert forall|i: int| 0 <= i < s.drop_last().len() implies !keep(#[trigger] s.drop_last()[i]) by {
            assert(s.drop_last()[i] == s[i]);
        }
        lemma_filter_none(s.drop_last(), keep);
    }
    assert(s.filter(keep) =~= Seq::<T>::empty());
}

/// Sorting brings in nothing new.
pub proof fn lemma_sorted_members<T>(s: Seq<T>, lt: spec_fn(T, T) -> bool)
    ensures
        sorted(s, lt).len() == s.len(),
        forall|i: int| 0 <= i < s.len() ==> s.contains(#[trigger] sorted(s, lt)[i]),
    decreases s.len(),
{
    if s.len() > 0 {
        let t = sorted(s.drop_last(), lt);
        let x = s.last();
        let p = slot(t, x, lt);
        lemma_sorted_members(s.drop_last(), lt);
        lemma_slot(t, x, lt);
        let r = t.insert(p, x);
        assert forall|i: int| 0 <= i < s.len() implies s.contains(#[trigger] sorted(s, lt)[i]) by {
            if i == p {
                assert(s[s.len() - 1] == r[i]);
            } else {
                let j = if i < p { i } else { i - 1 };
                assert(r[i] == t[j]);
                assert(s.drop_last().contains(t[j]));
                let k = choose|k: int| 0 <= k < s.drop_last().len() && s.drop_last()[k] == t[j];
                assert(s[k] == r[i]);
            }
        }
    }
}

/// Sorting by what the items stand for is sorting what they stand for.
pub proof fn lemma_sorted_map<T, U>(s: Seq<T>, lt: spec_fn(T, T) -> bool, f: spec_fn(T) -> U, over: spec_fn(U, U) -> bool)
    requires
        forall|a: T, b: T| s.contains(a) && s.contains(b) ==> #[trigger] lt(a, b) == over(f(a), f(b)),
    ensures
        sorted(s, lt).map_values(f) == sorted(s.map_values(f), over),
    decreases s.len(),
{
    if s.len() > 0 {
        let rest = s.drop_last();
        let t = sorted(rest, lt);
        let x = s.last();
        assert forall|a: T| rest.contains(a) implies s.contains(a) by {
            let k = choose|k: int| 0 <= k < rest.len() && rest[k] == a;
            assert(s[k] == a);
        }
        assert(s.contains(x)) by {
            assert(s[s.len() - 1] == x);
        }
        lemma_sorted_map(rest, lt, f, over);
        lemma_sorted_members(rest, lt);
        assert forall|i: int| 0 <= i < t.len() implies lt(x, #[trigger] t[i]) == over(f(x), f(t[i])) by {
            assert(rest.contains(t[i]));
        }
        lemma_slot_map(t, x, lt, f, over);
        lemma_slot(t, x, lt);
        assert(s.map_values(f).drop_last() =~= rest.map_values(f));
        assert(t.insert(slot(t, x, lt), x).map_values(f) =~= t.map_values(f).insert(slot(t, x, lt), f(x)));
    }
    assert(sorted(s, lt).map_values(f) =~= sorted(s.map_values(f), over));
}

proof fn lemma_slot_map<T, U>(s: Seq<T>, x: T, lt: spec_fn(T, T) -> bool, f: spec_fn(T) -> U, over: spec_fn(U, U) -> bool)
    requires
        forall|i: int| 0 <= i < s.len() ==> lt(x, #[trigger] s[i]) == over(f(x), f(s[i])),
    ensures
        slot(s, x, lt) == slot(s.map_values(f), f(x), over),
    decreases s.len(),
{
    if s.len() > 0 {
        assert(s.map_values(f).drop_last() =~= s.drop_last().map_values(f));
        assert(lt(x, s[s.len() - 1]) == over(f(x), f(s[s.len() - 1])));
        assert forall|i: int| 0 <= i < s.drop_last().len() implies lt(x, #[trigger] s.drop_last()[i]) == over(f(x), f(s.drop_last()[i])) by {
            assert(s.drop_last()[i] == s[i]);
        }
        lemma_slot_map(s.drop_last(), x, lt, f, over);
    }
}

/// The items of `v` in the order of `before`; those that tie keep the order they had.
pub(crate) fn sort<T, F: Fn(&T, &T) -> bool>(v: Vec<T>, before: F, lt: Ghost<spec_fn(T, T) -> bool>) -> (r: Vec<T>)
    requires
        weak_order(lt@),
        forall|a: &T, b: &T| #[trigger] before.requires((a, b)),
        forall|a: &T, b: &T, y: bool| #[trigger] before.ensures((a, b), y) ==> y == (lt@)(*a, *b),
    ensures
        r@ == sorted(v@, lt@),
{
    let mut out: Vec<T> = Vec::new();
    let ghost all = v@;
    for x in it: v
        invariant
            it.seq() == all,
            weak_order(lt@),
            forall|a: &T, b: &T| #[trigger] before.requires((a, b)),
            forall|a: &T, b: &T, y: bool| #[trigger] before.ensures((a, b), y) ==> y == (lt@)(*a, *b),
            out@ == sorted(all.take(it.index() as int), lt@),
    {
        proof {
            lemma_sorted(all.take(it.index() as int), lt@);
        }
        let mut lo: usize = 0;
        let mut hi: usize = out.len();
        while lo < hi
            invariant
                weak_order(lt@),
                forall|a: &T, b: &T| #[trigger] before.requires((a, b)),
                forall|a: &T, b: &T, y: bool| #[trigger] before.ensures((a, b), y) ==> y == (lt@)(*a, *b),
                in_order(out@, lt@),
                lo <= hi <= out@.len(),
                lo > 0 ==> !(lt@)(x, out@[lo - 1]),
                forall|i: int| hi <= i < out@.len() ==> (lt@)(x, #[trigger] out@[i]),
            decreases hi - lo,
        {
            let mid: usize = lo + (hi - lo) / 2;
            if before(&x, &out[mid]) {
                assert forall|i: int| mid <= i < out@.len() implies (lt@)(x, #[trigger] out@[i]) by {
                    if i > mid {
                        assert(!(lt@)(out@[i], out@[mid as int]));
                    }
                }
                hi = mid;
            } else {
                lo = mid + 1;
            }
        }
        proof {
            lemma_slot_is(out@, x, lt@, lo as int);
            assert(all.take(it.index() as int + 1).drop_last() =~= all.take(it.index() as int));
        }
        out.insert(lo, x);
    }
    assert(all.take(all.len() as int) =~= all);
    out
}

/// What `f` gives for the items of `s`, added up.
pub open spec fn sum<T>(s: Seq<T>, f: spec_fn(T) -> int) -> int
    decreases s.len(),
{
    if s.len() == 0 {
        0
    } else {
        sum(s.drop_last(), f) + f(s.last())
    }
}

pub proof fn lemma_sum_insert<T>(s: Seq<T>, f: spec_fn(T) -> int, p: int, x: T)
    requires
        0 <= p <= s.len(),
    ensures
        sum(s.insert(p, x), f) == sum(s, f) + f(x),
    decreases s.len(),
{
    let r = s.insert(p, x);
    if p == s.len() {
        assert(r.drop_last() =~= s);
    } else {
        assert(r.drop_last() =~= s.drop_last().insert(p, x));
        lemma_sum_insert(s.drop_last(), f, p, x);
    }
}

pub proof fn lemma_sum_update<T>(s: Seq<T>, f: spec_fn(T) -> int, p: int, x: T)
    requires
        0 <= p < s.len(),
    ensures
        sum(s.update(p, x), f) == sum(s, f) - f(s[p]) + f(x),
    decreases s.len(),
{
    let r = s.update(p, x);
    if p == s.len() - 1 {
        assert(r.drop_last() =~= s.drop_last());
    } else {
        assert(r.drop_last() =~= s.drop_last().update(p, x));
        lemma_sum_update(s.drop_last(), f, p, x);
    }
}

pub proof fn lemma_sum_map<T, U>(s: Seq<T>, g: spec_fn(T) -> U, f: spec_fn(U) -> int)
    ensures
        sum(s.map_values(g), f) == sum(s, |x: T| f(g(x))),
    decreases s.len(),
{
    if s.len() > 0 {
        assert(s.map_values(g).drop_last() =~= s.drop_last().map_values(g));
        lemma_sum_map(s.drop_last(), g, f);
    }
}

/// Sorting leaves sums as they are.
pub proof fn lemma_sorted_sum<T>(s: Seq<T>, lt: spec_fn(T, T) -> bool, f: spec_fn(T) -> int)
    ensures
        sum(sorted(s, lt), f) == sum(s, f),
    decreases s.len(),
{
    if s.len() > 0 {
        let t = sorted(s.drop_last(), lt);
        lemma_sorted_sum(s.drop_last(), lt, f);
        lemma_slot(t, s.last(), lt);
        lemma_sum_insert(t, f, slot(t, s.last(), lt), s.last());
    }
}

/// Sorting keeps apart what differs.
pub proof fn lemma_sorted_distinct<T, K>(s: Seq<T>, lt: spec_fn(T, T) -> bool, key: spec_fn(T) -> K)
    requires
        forall|i: int, j: int| 0 <= i < j < s.len() ==> key(#[trigger] s[i]) != key(#[trigger] s[j]),
    ensures
        forall|i: int, j: int| 0 <= i < j < s.len() ==> key(#[trigger] sorted(s, lt)[i]) != key(#[trigger] sorted(s, lt)[j]),
    decreases s.len(),
{
    if s.len() > 0 {
        let q = s.drop_last();
        let t = sorted(q, lt);
        let x = s.last();
        let p = slot(t, x, lt);
        assert forall|i: int, j: int| 0 <= i < j < q.len() implies key(#[trigger] q[i]) != key(#[trigger] q[j]) by {
            assert(q[i] == s[i] && q[j] == s[j]);
        }
        lemma_sorted_distinct(q, lt, key);
        lemma_sorted_members(q, lt);
        lemma_slot(t, x, lt);
        assert forall|k: int| 0 <= k < t.len() implies key(#[trigger] t[k]) != key(x) by {
            assert(q.contains(t[k]));
            let m = choose|m: int| 0 <= m < q.len() && q[m] == t[k];
            assert(s[m] == t[k] && s[s.len() - 1] == x);
        }
        let r = t.insert(p, x);
        assert forall|i: int, j: int| 0 <= i < j < s.len() implies key(#[trigger] r[i]) != key(#[trigger] r[j]) by {
            let a = if i < p { t[i] } else if i == p { x } else { t[i - 1] };
            let b = if j < p { t[j] } else if j == p { x } else { t[j - 1] };
            assert(r[i] == a && r[j] == b);
        }
    }
}

} // verus!
