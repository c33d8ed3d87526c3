//! A map from texts to values, kept in the order of its keys.

use crate::text::{order, Rel};
use vstd::prelude::*;

verus! {

broadcast use crate::text::lemma_order_laws;

/// The keys strictly ascend: they are in order and none occurs twice.
pub open spec fn ascending<T>(s: Seq<(Seq<char>, T)>) -> bool {
    forall|i: int, j: int| 0 <= i < j < s.len() ==> #[trigger] crate::text::lex_lt(s[i].0, #[trigger] s[j].0)
}

/// How many of the leading entries have a key before `k`: the place of `k`.
pub open spec fn place<T>(s: Seq<(Seq<char>, T)>, k: Seq<char>) -> int
    decreases s.len(),
{
    if s.len() > 0 && crate::text::lex_lt(s[0].0, k) {
        1 + place(s.drop_first(), k)
    } else {
        0
    }
}

/// Whether `k` is among the keys.
pub open spec fn holds<T>(s: Seq<(Seq<char>, T)>, k: Seq<char>) -> bool {
    place(s, k) < s.len() && s[place(s, k)].0 == k
}

/// The value under `k`.
pub open spec fn lookup<T>(s: Seq<(Seq<char>, T)>, k: Seq<char>) -> Option<T> {
    if holds(s, k) {
        Some(s[place(s, k)].1)
    } else {
        None
    }
}

/// `s` with `v` under `k`, in place of what was there.
pub open spec fn put<T>(s: Seq<(Seq<char>, T)>, k: Seq<char>, v: T) -> Seq<(Seq<char>, T)> {
    if holds(s, k) {
        s.update(place(s, k), (k, v))
    } else {
        s.insert(place(s, k), (k, v))
    }
}

/// `s` without what was under `k`.
pub open spec fn del<T>(s: Seq<(Seq<char>, T)>, k: Seq<char>) -> Seq<(Seq<char>, T)> {
    if holds(s, k) {
        s.remove(place(s, k))
    } else {
        s
    }
}

/// The values, in the order of their keys.
pub open spec fn values<T>(s: Seq<(Seq<char>, T)>) -> Seq<T> {
    s.map_values(|e: (Seq<char>, T)| e.1)
}

/// `place` counts from the front: it is a position of `s`, every key before it comes before `k`,
/// and the key at it does not.
pub proof fn lemma_place<T>(s: Seq<(Seq<char>, T)>, k: Seq<char>)
    ensures
        0 <= place(s, k) <= s.len(),
        forall|j: int| 0 <= j < place(s, k) ==> crate::text::lex_lt(#[trigger] s[j].0, k),
        place(s, k) < s.len() ==> !crate::text::lex_lt(s[place(s, k)].0, k),
    decreases s.len(),
{
    if s.len() > 0 && crate::text::lex_lt(s[0].0, k) {
        let t = s.drop_first();
        lemma_place(t, k);
        assert forall|j: int| 0 <= j < place(s, k) implies crate::text::lex_lt(#[trigger] s[j].0, k) by {
            if j > 0 {
                assert(t[j - 1] == s[j]);
            }
        }
        if place(s, k) < s.len() {
            assert(t[place(t, k)] == s[place(s, k)]);
        }
    }
}

/// Only one position has those properties.
pub proof fn lemma_place_is<T>(s: Seq<(Seq<char>, T)>, k: Seq<char>, i: int)
    requires
        0 <= i <= s.len(),
        forall|j: int| 0 <= j < i ==> crate::text::lex_lt(#[trigger] s[j].0, k),
        i < s.len() ==> !crate::text::lex_lt(s[i].0, k),
    ensures
        place(s, k) == i,
{
    lemma_place(s, k);
    if place(s, k) < i {
        assert(crate::text::lex_lt(s[place(s, k)].0, k));
    }
    if i < place(s, k) {
        assert(crate::text::lex_lt(s[i].0, k));
    }
}

/// Among ascending keys, an entry is found by its key.
pub proof fn lemma_found<T>(s: Seq<(Seq<char>, T)>, i: int)
    requires
        ascending(s),
        0 <= i < s.len(),
    ensures
        place(s, s[i].0) == i,
        lookup(s, s[i].0) == Some(s[i].1),
{
    lemma_place_is(s, s[i].0, i);
}

/// Writing keeps the keys ascending. The value written is read back; what stands under any other
/// key is untouched.
pub proof fn lemma_put<T>(s: Seq<(Seq<char>, T)>, k: Seq<char>, v: T)
    requires
        ascending(s),
    ensures
        ascending(put(s, k, v)),
        lookup(put(s, k, v), k) == Some(v),
        forall|j: Seq<char>| j != k ==> #[trigger] lookup(put(s, k, v), j) == lookup(s, j),
{
    let p = place(s, k);
    let t = put(s, k, v);
    lemma_place(s, k);
    assert(forall|i: int| 0 <= i < p ==> t[i] == s[i]);
    assert(t[p] == (k, v));
    if holds(s, k) {
        assert(forall|i: int| p < i < s.len() ==> t[i] == s[i]);
    } else {
        assert(forall|i: int| p <= i < s.len() ==> t[i + 1] == s[i]);
        assert(forall|i: int| p < i < t.len() ==> t[i] == s[i - 1]);
    }
    assert forall|i: int, j: int| 0 <= i < j < t.len() implies #[trigger] crate::text::lex_lt(t[i].0, #[trigger] t[j].0) by {
        if !holds(s, k) {
            if i == p {
                if j > p + 1 {
                    assert(crate::text::lex_lt(s[p].0, s[j - 1].0));
                }
                assert(crate::text::lex_lt(k, s[p].0));
            } else if j > p {
                if i < p {
                    assert(crate::text::lex_lt(s[i].0, s[j - 1].0));
                } else {
                    assert(crate::text::lex_lt(s[i - 1].0, s[j - 1].0));
                }
            }
        } else {
            assert(crate::text::lex_lt(s[i].0, s[j].0));
        }
    }
    lemma_place_is(t, k, p);
    assert forall|j: Seq<char>| j != k implies #[trigger] lookup(t, j) == lookup(s, j) by {
        let q = place(s, j);
        lemma_place(s, j);
        if holds(s, k) {
            lemma_place_is(t, j, q);
        } else if q < p || (q == p && crate::text::lex_lt(j, k)) {
            lemma_place_is(t, j, q);
            if q == p && q < s.len() && s[q].0 == j {
                assert(false);
            }
        } else {
            assert(crate::text::lex_lt(k, j)) by {
                if crate::text::lex_lt(j, k) {
                    if p < q {
                        assert(crate::text::lex_lt(s[p].0, j));
                    }
                }
            }
            assert forall|i: int| 0 <= i < q + 1 implies crate::text::lex_lt(#[trigger] t[i].0, j) by {
                if i > p {
                    assert(t[i] == s[i - 1]);
                } else if i < p {
                    assert(t[i] == s[i]);
                }
            }
            lemma_place_is(t, j, q + 1);
        }
    }
}

/// Removing keeps the keys ascending. Nothing stands under the key then, and what stands under any
/// other key is untouched.
pub proof fn lemma_del<T>(s: Seq<(Seq<char>, T)>, k: Seq<char>)
    requires
        ascending(s),
    ensures
        ascending(del(s, k)),
        lookup(del(s, k), k) is None,
        forall|j: Seq<char>| j != k ==> #[trigger] lookup(del(s, k), j) == lookup(s, j),
{
    let p = place(s, k);
    let t = del(s, k);
    lemma_place(s, k);
    if holds(s, k) {
        assert(forall|i: int| 0 <= i < p ==> t[i] == s[i]);
        assert(forall|i: int| p <= i < t.len() ==> t[i] == s[i + 1]);
        lemma_place_is(t, k, p);
        assert forall|j: Seq<char>| j != k implies #[trigger] lookup(t, j) == lookup(s, j) by {
            let q = place(s, j);
            lemma_place(s, j);
            if q <= p {
                if q == p && p + 1 < s.len() {
                    assert(crate::text::lex_lt(s[p].0, s[p + 1].0));
                }
                lemma_place_is(t, j, q);
            } else {
                assert forall|i: int| 0 <= i < q - 1 implies crate::text::lex_lt(#[trigger] t[i].0, j) by {
                    if i >= p {
                        assert(t[i] == s[i + 1]);
                    }
                }
                lemma_place_is(t, j, q - 1);
            }
        }
    }
}

/// Turning each value into another moves no key.
pub proof fn lemma_mapped<T, U>(s: Seq<(Seq<char>, T)>, t: Seq<(Seq<char>, U)>, k: Seq<char>)
    requires
        s.len() == t.len(),
        forall|i: int| 0 <= i < s.len() ==> #[trigger] s[i].0 == t[i].0,
    ensures
        place(s, k) == place(t, k),
        holds(s, k) == holds(t, k),
    decreases s.len(),
{
    if s.len() > 0 {
        lemma_mapped(s.drop_first(), t.drop_first(), k);
    }
    lemma_place(s, k);
}

/// A map from texts to values, in the order of its keys.
#[derive(Debug, PartialEq)]
pub struct StrMap<V> {
    pub(crate) entries: Vec<(String, V)>,
}

impl<V> View for StrMap<V> {
    type V = Seq<(Seq<char>, V)>;

    closed spec fn view(&self) -> Seq<(Seq<char>, V)> {
        self.entries@.map_values(|e: (String, V)| (e.0@, e.1))
    }
}

impl<V: DeepView> DeepView for StrMap<V> {
    type V = Seq<(Seq<char>, V::V)>;

    open spec fn deep_view(&self) -> Seq<(Seq<char>, V::V)> {
        self@.map_values(|e: (Seq<char>, V)| (e.0, e.1.deep_view()))
    }
}

impl<V> StrMap<V> {
    #[verifier::type_invariant]
    spec fn in_order(self) -> bool {
        ascending(self@)
    }

    /// The view lists the entries.
    pub(crate) proof fn lemma_view(&self)
        ensures
            self@ == self.entries@.map_values(|e: (String, V)| (e.0@, e.1)),
    {
    }

    /// A map with nothing in it.
    pub fn new() -> (r: Self)
        ensures
            r@ == Seq::<(Seq<char>, V)>::empty(),
    {
        let r = StrMap { entries: Vec::new() };
        assert(r@ =~= Seq::<(Seq<char>, V)>::empty());
        r
    }

    /// How many keys there are.
    pub fn len(&self) -> (n: usize)
        ensures
            n == self@.len(),
    {
        self.entries.len()
    }

    /// Whether there are no keys.
    pub fn is_empty(&self) -> (r: bool)
        ensures
            r == (self@.len() == 0),
    {
        self.entries.len() == 0
    }

    /// The `i`th key.
    pub fn key_at(&self, i: usize) -> (k: &str)
        requires
            i < self@.len(),
        ensures
            k@ == self@[i as int].0,
    {
        self.entries[i].0.as_str()
    }

    /// The value under the `i`th key.
    pub fn value_at(&self, i: usize) -> (v: &V)
        requires
            i < self@.len(),
        ensures
            *v == self@[i as int].1,
    {
        &self.entries[i].1
    }

    /// The place of `k` among the keys.
    fn find(entries: &Vec<(String, V)>, k: &str) -> (p: usize)
        requires
            ascending(entries@.map_values(|e: (String, V)| (e.0@, e.1))),
        ensures
            p == place(entries@.map_values(|e: (String, V)| (e.0@, e.1)), k@),
            p <= entries@.len(),
    {
        let ghost s = entries@.map_values(|e: (String, V)| (e.0@, e.1));
        let mut lo: usize = 0;
        let mut hi: usize = entries.len();
        while lo < hi
            invariant
                s == entries@.map_values(|e: (String, V)| (e.0@, e.1)),
                ascending(s),
                0 <= lo <= hi <= s.len(),
                s.len() == entries@.len(),
                forall|j: int| 0 <= j < lo ==> crate::text::lex_lt(#[trigger] s[j].0, k@),
                hi < s.len() ==> !crate::text::lex_lt(s[hi as int].0, k@),
            decreases hi - lo,
        {
            let mid: usize = lo + (hi - lo) / 2;
            match order(entries[mid].0.as_str(), k) {
                Rel::Before => {
                    assert forall|j: int| 0 <= j < mid + 1 implies crate::text::lex_lt(#[trigger] s[j].0, k@) by {
                        if j < mid {
                            assert(crate::text::lex_lt(s[j].0, s[mid as int].0));
                        }
                    }
                    lo = mid + 1;
                },
                _ => {
                    hi = mid;
                },
            }
        }
        proof {
            lemma_place_is(s, k@, lo as int);
        }
        lo
    }

    /// The value under `k`.
    pub fn get(&self, k: &str) -> (r: Option<&V>)
        ensures
            match r {
                Some(v) => lookup(self@, k@) == Some(*v),
                None => lookup(self@, k@) is None,
            },
            ascending(self@),
    {
        proof {
            use_type_invariant(self);
        }
        let p: usize = Self::find(&self.entries, k);
        if p < self.entries.len() && crate::text::same(self.entries[p].0.as_str(), k) {
            Some(&self.entries[p].1)
        } else {
            None
        }
    }

    /// Put `v` under `k`, in place of what was there.
    pub fn insert(&mut self, k: String, v: V)
        ensures
            final(self)@ == put(old(self)@, k@, v),
    {
        proof {
            use_type_invariant(&*self);
        }
        let ghost before = self@;
        let mut entries: Vec<(String, V)> = Vec::new();
        std::mem::swap(&mut entries, &mut self.entries);
        let p: usize = Self::find(&entries, k.as_str());
        if p < entries.len() && crate::text::same(entries[p].0.as_str(), k.as_str()) {
            entries[p] = (k, v);
        } else {
            entries.insert(p, (k, v));
        }
        assert(entries@.map_values(|e: (String, V)| (e.0@, e.1)) =~= put(before, k@, v));
        proof {
            lemma_put(before, k@, v);
        }
        self.entries = entries;
    }

    /// Take out what is under `k`.
    pub fn remove(&mut self, k: &str)
        ensures
            final(self)@ == del(old(self)@, k@),
    {
        proof {
            use_type_invariant(&*self);
        }
        let ghost before = self@;
        let mut entries: Vec<(String, V)> = Vec::new();
        std::mem::swap(&mut entries, &mut self.entries);
        let p: usize = Self::find(&entries, k);
        if p < entries.len() && crate::text::same(entries[p].0.as_str(), k) {
            entries.remove(p);
        }
        assert(entries@.map_values(|e: (String, V)| (e.0@, e.1)) =~= del(before, k@));
        proof {
            lemma_del(before, k@);
        }
        self.entries = entries;
    }
}

impl<V: DeepView> StrMap<V> {
    /// The value under `k`, by what it stands for.
    pub fn fetch(&self, k: &str) -> (r: Option<&V>)
        ensures
            r.deep_view() == lookup(self.deep_view(), k@),
    {
        proof {
            lemma_mapped(self@, self.deep_view(), k@);
            lemma_place(self@, k@);
        }
        self.get(k)
    }
}

/// Writing a value is writing what it stands for.
pub proof fn lemma_put_deep<V: DeepView>(s: Seq<(Seq<char>, V)>, k: Seq<char>, v: V)
    ensures
        put(s, k, v).map_values(|e: (Seq<char>, V)| (e.0, e.1.deep_view())) == put(
            s.map_values(|e: (Seq<char>, V)| (e.0, e.1.deep_view())),
            k,
            v.deep_view(),
        ),
{
    let f = |e: (Seq<char>, V)| (e.0, e.1.deep_view());
    lemma_mapped(s, s.map_values(f), k);
    lemma_place(s, k);
    assert(put(s, k, v).map_values(f) =~= put(s.map_values(f), k, v.deep_view()));
}

/// Removing a value is removing what it stands for.
pub proof fn lemma_del_deep<V: DeepView>(s: Seq<(Seq<char>, V)>, k: Seq<char>)
    ensures
        del(s, k).map_values(|e: (Seq<char>, V)| (e.0, e.1.deep_view())) == del(
            s.map_values(|e: (Seq<char>, V)| (e.0, e.1.deep_view())),
            k,
        ),
{
    let f = |e: (Seq<char>, V)| (e.0, e.1.deep_view());
    lemma_mapped(s, s.map_values(f), k);
    lemma_place(s, k);
    assert(del(s, k).map_values(f) =~= del(s.map_values(f), k));
}

// ----- Counting -----------------------------------------------------------------------

/// How often each key occurs among `keys`.
pub open spec fn tally(keys: Seq<Seq<char>>) -> Seq<(Seq<char>, int)>
    decreases keys.len(),
{
    if keys.len() == 0 {
        Seq::empty()
    } else {
        let m = tally(keys.drop_last());
        let k = keys.last();
        put(
            m,
            k,
            match lookup(m, k) {
                Some(n) => n + 1,
                None => 1,
            },
        )
    }
}

/// How often `k` occurs among `keys`.
pub open spec fn occurrences(keys: Seq<Seq<char>>, k: Seq<char>) -> int
    decreases keys.len(),
{
    if keys.len() == 0 {
        0
    } else {
        occurrences(keys.drop_last(), k) + if keys.last() == k { 1int } else { 0 }
    }
}

/// Counts, as integers.
pub open spec fn as_ints(s: Seq<(Seq<char>, usize)>) -> Seq<(Seq<char>, int)> {
    s.map_values(|e: (Seq<char>, usize)| (e.0, e.1 as int))
}

/// A tally has its keys in order and holds, under each key that occurs, how often it does.
pub proof fn lemma_tally(keys: Seq<Seq<char>>, k: Seq<char>)
    ensures
        ascending(tally(keys)),
        0 <= occurrences(keys, k) <= keys.len(),
        lookup(tally(keys), k) == if occurrences(keys, k) > 0 { Some(occurrences(keys, k)) } else { None },
    decreases keys.len(),
{
    if keys.len() > 0 {
        let m = tally(keys.drop_last());
        let j = keys.last();
        lemma_tally(keys.drop_last(), k);
        lemma_tally(keys.drop_last(), j);
        lemma_put(m, j, match lookup(m, j) { Some(n) => n + 1, None => 1 });
    } else {
        lemma_place(tally(keys), k);
    }
}

/// The counts of a tally add up to how many keys there are.
pub proof fn lemma_tally_sum(keys: Seq<Seq<char>>)
    ensures
        crate::sort::sum(tally(keys), |e: (Seq<char>, int)| e.1) == keys.len(),
    decreases keys.len(),
{
    let f = |e: (Seq<char>, int)| e.1;
    if keys.len() > 0 {
        let m = tally(keys.drop_last());
        let k = keys.last();
        lemma_tally_sum(keys.drop_last());
        lemma_tally(keys.drop_last(), k);
        lemma_place(m, k);
        let p = place(m, k);
        if holds(m, k) {
            crate::sort::lemma_sum_update(m, f, p, (k, m[p].1 + 1));
        } else {
            crate::sort::lemma_sum_insert(m, f, p, (k, 1int));
        }
    }
}

proof fn lemma_put_int(s: Seq<(Seq<char>, usize)>, k: Seq<char>, n: usize)
    ensures
        as_ints(put(s, k, n)) == put(as_ints(s), k, n as int),
{
    lemma_mapped(s, as_ints(s), k);
    lemma_place(s, k);
    assert(as_ints(put(s, k, n)) =~= put(as_ints(s), k, n as int));
}

/// How often each key occurs among `keys`.
pub fn tallied(keys: Vec<String>) -> (r: StrMap<usize>)
    ensures
        as_ints(r@) == tally(keys.deep_view()),
{
    let ghost all = keys.deep_view();
    let ghost raw = keys@;
    let mut counts: StrMap<usize> = StrMap::new();
    let total: usize = keys.len();
    assert(as_ints(counts@) =~= Seq::empty());
    for k in it: keys
        invariant
            it.seq() == raw,
            raw.len() == all.len(),
            raw.len() == total,
            forall|i: int| 0 <= i < raw.len() ==> #[trigger] raw[i]@ == all[i],
            as_ints(counts@) == tally(all.take(it.index() as int)),
    {
        let ghost i = it.index() as int;
        assert(all.take(i + 1).drop_last() =~= all.take(i));
        assert(all.take(i + 1).last() == k@);
        proof {
            lemma_mapped(counts@, as_ints(counts@), k@);
            lemma_place(counts@, k@);
            lemma_tally(all.take(i), k@);
        }
        let n: usize = match counts.get(k.as_str()) {
            Some(n) => *n,
            None => 0,
        };
        assert(n == occurrences(all.take(i), k@));
        proof {
            lemma_put_int(counts@, k@, (n + 1) as usize);
        }
        counts.insert(k, n + 1);
    }
    assert(all.take(all.len() as int) =~= all);
    counts
}

} // verus!
