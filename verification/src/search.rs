//! Fuzzy ranking over arbitrary items via nucleo-matcher.

use crate::sort::sort;
use crate::text;
use nucleo_matcher::pattern::{AtomKind, CaseMatching, Normalization, Pattern};
use nucleo_matcher::{Config, Matcher, Utf32Str};
use vstd::prelude::*;

verus! {

/// nucleo-matcher's `Matcher`: a configuration and scratch memory.
#[verifier::external_type_specification]
#[verifier::external_body]
pub struct ExMatcher(Matcher);

/// The longest word of a query that is matched, each backslash counted twice: a word's score is summed
/// in 16 bits, and a character can score up to 26, the first up to 36.
pub const MAX_WORD: usize = 2500;

/// The longest query that is matched: the scores of its words are summed in 32 bits.
pub const MAX_QUERY: usize = 50_000_000;

/// The longest text that is searched, in bytes.
pub const MAX_HAYSTACK: usize = 0xffff_ffff;

/// Whether the words of a query come apart at `i`: at a blank, unless a backslash stands before it.
pub open spec fn splits(q: Seq<char>, i: int) -> bool {
    q[i] == ' ' && !(i > 0 && q[i - 1] == '\\')
}

/// How many characters nucleo-matcher may look for in place of one of a query: in a word that is not
/// ASCII it doubles a backslash that no blank follows.
pub open spec fn width(c: char) -> nat {
    if c == '\\' {
        2
    } else {
        1
    }
}

/// The length of the word that a query ends in, by the characters that may be looked for.
pub open spec fn last_word(q: Seq<char>) -> nat
    decreases q.len(),
{
    if q.len() == 0 || splits(q, q.len() - 1) {
        0
    } else {
        last_word(q.drop_last()) + width(q.last())
    }
}

/// The length of the longest word of a query, by the characters that may be looked for.
pub open spec fn longest_word(q: Seq<char>) -> nat
    decreases q.len(),
{
    if q.len() == 0 {
        0
    } else {
        let rest = longest_word(q.drop_last());
        if last_word(q) > rest {
            last_word(q)
        } else {
            rest
        }
    }
}

/// Whether nucleo-matcher may take the character for a variant of an ASCII letter. A query without
/// such characters finds variants.
pub open spec fn variant(c: char) -> bool {
    ||| 0xc0 <= c as u32 <= 0x36f
    ||| 0x1d00 <= c as u32 <= 0x1ef1
    ||| 0x2071 <= c as u32 <= 0x2184
}

/// What simple case folding makes of a lower-case character. It leaves all but these as they are.
pub open spec fn refolded(c: char) -> u32 {
    let n = c as u32;
    if n == 0xb5 {
        0x3bc
    } else if n == 0x17f {
        0x73
    } else if n == 0x345 || n == 0x1fbe {
        0x3b9
    } else if n == 0x3c2 {
        0x3c3
    } else if n == 0x3d0 {
        0x3b2
    } else if n == 0x3d1 {
        0x3b8
    } else if n == 0x3d5 {
        0x3c6
    } else if n == 0x3d6 {
        0x3c0
    } else if n == 0x3f0 {
        0x3ba
    } else if n == 0x3f1 {
        0x3c1
    } else if n == 0x3f5 {
        0x3b5
    } else if 0x13f8 <= n <= 0x13fd {
        (n - 8) as u32
    } else if n == 0x1c80 {
        0x432
    } else if n == 0x1c81 {
        0x434
    } else if n == 0x1c82 {
        0x43e
    } else if n == 0x1c83 {
        0x441
    } else if n == 0x1c84 || n == 0x1c85 {
        0x442
    } else if n == 0x1c86 {
        0x44a
    } else if n == 0x1c87 {
        0x463
    } else if n == 0x1c88 {
        0xa64b
    } else if n == 0x1e9b {
        0x1e61
    } else if 0xab70 <= n <= 0xabbf {
        (n - 0x97d0) as u32
    } else {
        n
    }
}

/// Whether nucleo-matcher folds the text alike wherever it compares it with the query. While it looks
/// for variants it does; else it folds a lower-case character in one place and not in another, which
/// tells only where the query has what that folds to.
pub open spec fn folds_alike(query: Seq<char>, hay: Seq<char>) -> bool {
    ||| forall|i: int| 0 <= i < query.len() ==> !variant(#[trigger] query[i])
    ||| forall|i: int, j: int| 0 <= i < hay.len() && 0 <= j < query.len() ==> refolded(#[trigger] hay[i]) == hay[i] as u32 || refolded(
        hay[i],
    ) != (#[trigger] query[j]) as u32
}

/// Whether nucleo-matcher can take the two texts: its sums and products do not overflow, and it folds
/// alike.
pub open spec fn searchable(query: Seq<char>, hay: Seq<char>) -> bool {
    &&& query.len() <= MAX_QUERY
    &&& longest_word(query) <= MAX_WORD
    &&& vstd::utf8::encode_utf8(hay).len() <= MAX_HAYSTACK
    &&& vstd::utf8::encode_utf8(hay).len() <= usize::MAX / MAX_WORD
    &&& folds_alike(query, hay)
}

/// How well nucleo-matcher finds a text to match a query, where it does.
pub uninterp spec fn fuzzy_score(query: Seq<char>, hay: Seq<char>) -> Option<u32>;

/// nucleo-matcher's `Pattern::new` and `Pattern::score`, with its default configuration and smart
/// case and normalization: the score is a function of the two texts. The matcher is set to that
/// configuration first and else serves as scratch memory. Which texts match, and how scores compare,
/// is left unsaid. It panics on a text of more than 2^32 - 1 bytes; an overflow, or a text folded in two
/// ways, makes it panic where it is built with assertions.
#[verifier::external_body]
fn score(matcher: &mut Matcher, query: &str, hay: &str) -> (r: Option<u32>)
    requires
        searchable(query@, hay@),
    ensures
        r == fuzzy_score(query@, hay@),
{
    matcher.config = Config::DEFAULT;
    let pattern = Pattern::new(query, CaseMatching::Smart, Normalization::Smart, AtomKind::Fuzzy);
    let mut buf = Vec::new();
    pattern.score(Utf32Str::new(hay, &mut buf), matcher)
}

/// nucleo-matcher's `Matcher::new`, with its default configuration.
#[verifier::external_body]
fn new_matcher() -> (r: Matcher) {
    Matcher::new(Config::DEFAULT)
}

/// How well a text matches a query, where it does. Texts that the matcher cannot take match nothing.
pub open spec fn matching(query: Seq<char>, hay: Seq<char>) -> Option<u32> {
    if searchable(query, hay) {
        fuzzy_score(query, hay)
    } else {
        None
    }
}

/// The items that match, with their scores, in their order. `hays` are the texts they are found by.
pub open spec fn scored<T>(query: Seq<char>, items: Seq<T>, hays: Seq<Seq<char>>) -> Seq<(u32, T)>
    decreases items.len(),
{
    if items.len() == 0 {
        Seq::empty()
    } else {
        let rest = scored(query, items.drop_last(), hays);
        match matching(query, hays[items.len() - 1]) {
            Some(n) => rest.push((n, items.last())),
            None => rest,
        }
    }
}

/// Whether one match comes before another: the higher score first.
pub open spec fn better<T>(a: (u32, T), b: (u32, T)) -> bool {
    a.0 > b.0
}

/// The items that match, best first; those with one score keep their order.
pub open spec fn best<T>(scored: Seq<(u32, T)>) -> Seq<T> {
    crate::sort::sorted(scored, |a: (u32, T), b: (u32, T)| better(a, b)).map_values(|a: (u32, T)| a.1)
}

/// The items matching `query`, best first. A query with nothing but white space keeps every item in
/// order.
pub open spec fn ranked<T>(query: Seq<char>, items: Seq<T>, hays: Seq<Seq<char>>) -> Seq<T> {
    let query = text::trimmed(query);
    if query.len() == 0 {
        items
    } else {
        best(scored(query, items, hays))
    }
}

/// Whether `hay` is a text that `haystack` gives for `item`.
pub open spec fn may_give<T, F: Fn(&T) -> String>(haystack: F, item: T, hay: Seq<char>) -> bool {
    exists|h: String| #[trigger] haystack.ensures((&item,), h) && h@ == hay
}

/// Whether `hays` are texts that `haystack` gives for `items`.
pub open spec fn gives<T, F: Fn(&T) -> String>(haystack: F, items: Seq<T>, hays: Seq<Seq<char>>) -> bool {
    &&& hays.len() == items.len()
    &&& forall|i: int| 0 <= i < items.len() ==> may_give(haystack, items[i], #[trigger] hays[i])
}

/// Items that match, best first.
pub fn best_of<T>(scored: Vec<(u32, T)>) -> (r: Vec<T>)
    ensures
        r@ == best(scored@),
{
    let ghost lt = |a: (u32, T), b: (u32, T)| better(a, b);
    let before = |a: &(u32, T), b: &(u32, T)| -> (y: bool)
        ensures
            y == better(*a, *b),
        { a.0 > b.0 };
    let sorted = sort(scored, before, Ghost(lt));
    let ghost raw = sorted@;
    let mut out: Vec<T> = Vec::new();
    for x in it: sorted
        invariant
            it.seq() == raw,
            out@.len() == it.index(),
            forall|j: int| 0 <= j < out@.len() ==> #[trigger] out@[j] == raw[j].1,
    {
        out.push(x.1);
    }
    assert(out@ =~= raw.map_values(|a: (u32, T)| a.1));
    out
}

/// The length of the longest word of a query, by the characters that may be looked for.
fn longest(query: &str) -> (r: usize)
    requires
        query@.len() <= MAX_QUERY,
    ensures
        r == longest_word(query@),
{
    let n: usize = query.unicode_len();
    let mut longest: usize = 0;
    let mut word: usize = 0;
    let mut escaped = false;
    for c in it: query.chars()
        invariant
            it.seq() == query@,
            n == query@.len(),
            it.index() <= n <= MAX_QUERY,
            word <= 2 * it.index(),
            longest <= 2 * it.index(),
            word == last_word(query@.take(it.index() as int)),
            longest == longest_word(query@.take(it.index() as int)),
            escaped == (it.index() > 0 && query@[it.index() - 1] == '\\'),
    {
        let ghost now = query@.take(it.index() as int + 1);
        assert(now.drop_last() =~= query@.take(it.index() as int));
        assert(now.last() == c);
        if c == ' ' && !escaped {
            word = 0;
        } else if c == '\\' {
            word = word + 2;
        } else {
            word = word + 1;
        }
        if word > longest {
            longest = word;
        }
        escaped = c == '\\';
    }
    assert(query@.take(n as int) =~= query@);
    longest
}

/// Whether nucleo-matcher may take the character for a variant of an ASCII letter.
pub fn is_variant(c: char) -> (r: bool)
    ensures
        r == variant(c),
{
    let n: u32 = c as u32;
    (0xc0 <= n && n <= 0x36f) || (0x1d00 <= n && n <= 0x1ef1) || (0x2071 <= n && n <= 0x2184)
}

/// What simple case folding makes of a lower-case character.
pub fn refold(c: char) -> (r: u32)
    ensures
        r == refolded(c),
{
    let n: u32 = c as u32;
    match n {
        0xb5 => 0x3bc,
        0x17f => 0x73,
        0x345 => 0x3b9,
        0x3c2 => 0x3c3,
        0x3d0 => 0x3b2,
        0x3d1 => 0x3b8,
        0x3d5 => 0x3c6,
        0x3d6 => 0x3c0,
        0x3f0 => 0x3ba,
        0x3f1 => 0x3c1,
        0x3f5 => 0x3b5,
        0x1c80 => 0x432,
        0x1c81 => 0x434,
        0x1c82 => 0x43e,
        0x1c83 => 0x441,
        0x1c84 => 0x442,
        0x1c85 => 0x442,
        0x1c86 => 0x44a,
        0x1c87 => 0x463,
        0x1c88 => 0xa64b,
        0x1e9b => 0x1e61,
        0x1fbe => 0x3b9,
        _ => if 0x13f8 <= n && n <= 0x13fd {
            n - 8
        } else if 0xab70 <= n && n <= 0xabbf {
            n - 0x97d0
        } else {
            n
        },
    }
}

fn has_variant(query: &str) -> (r: bool)
    ensures
        r == exists|i: int| 0 <= i < query@.len() && variant(#[trigger] query@[i]),
{
    for c in it: query.chars()
        invariant
            it.seq() == query@,
            forall|i: int| 0 <= i < it.index() ==> !variant(#[trigger] query@[i]),
    {
        if is_variant(c) {
            assert(variant(query@[it.index() as int]));
            return true;
        }
    }
    false
}

fn has_code(query: &str, code: u32) -> (r: bool)
    ensures
        r == exists|j: int| 0 <= j < query@.len() && (#[trigger] query@[j]) as u32 == code,
{
    for c in it: query.chars()
        invariant
            it.seq() == query@,
            forall|j: int| 0 <= j < it.index() ==> (#[trigger] query@[j]) as u32 != code,
    {
        if c as u32 == code {
            assert(query@[it.index() as int] as u32 == code);
            return true;
        }
    }
    false
}

fn is_folded_alike(query: &str, hay: &str) -> (r: bool)
    ensures
        r == folds_alike(query@, hay@),
{
    if !has_variant(query) {
        return true;
    }
    for c in it: hay.chars()
        invariant
            it.seq() == hay@,
            forall|i: int, j: int| 0 <= i < it.index() && 0 <= j < query@.len() ==> refolded(#[trigger] hay@[i]) == hay@[i] as u32 || refolded(
                hay@[i],
            ) != (#[trigger] query@[j]) as u32,
            exists|i: int| 0 <= i < query@.len() && variant(#[trigger] query@[i]),
    {
        let code: u32 = refold(c);
        if code != c as u32 && has_code(query, code) {
            assert(hay@[it.index() as int] == c);
            return false;
        }
    }
    true
}

/// Whether the matcher can take the two texts.
pub fn is_searchable(query: &str, hay: &str) -> (r: bool)
    ensures
        r == searchable(query@, hay@),
{
    let bytes: usize = hay.as_bytes().len();
    query.unicode_len() <= MAX_QUERY && longest(query) <= MAX_WORD && bytes <= MAX_HAYSTACK && bytes <= usize::MAX / MAX_WORD
        && is_folded_alike(query, hay)
}

pub struct Fuzzy {
    matcher: Matcher,
}

impl Default for Fuzzy {
    fn default() -> (r: Self) {
        Fuzzy { matcher: new_matcher() }
    }
}

impl Fuzzy {
    /// How well a text matches a query, where it does.
    pub fn score(&mut self, query: &str, hay: &str) -> (r: Option<u32>)
        ensures
            r == matching(query@, hay@),
    {
        if is_searchable(query, hay) {
            score(&mut self.matcher, query, hay)
        } else {
            None
        }
    }

    /// Returns the items matching `query`, best first. An empty query keeps every item in order.
    pub fn rank<T, F: Fn(&T) -> String>(&mut self, query: &str, items: Vec<T>, haystack: F) -> (r: Vec<T>)
        requires
            forall|i: int| 0 <= i < items@.len() ==> haystack.requires((&#[trigger] items@[i],)),
        ensures
            text::trimmed(query@).len() == 0 ==> r@ == items@,
            text::trimmed(query@).len() > 0 ==> exists|hays: Seq<Seq<char>>| gives(haystack, items@, hays) && r@ == #[trigger] ranked(query@, items@, hays),
    {
        let ghost whole = query@;
        let query = text::trim(query);
        if query.is_empty() {
            return items;
        }
        let ghost all = items@;
        let ghost mut hays: Seq<Seq<char>> = Seq::empty();
        let mut found: Vec<(u32, T)> = Vec::new();
        for item in it: items
            invariant
                it.seq() == all,
                forall|i: int| 0 <= i < all.len() ==> haystack.requires((&#[trigger] all[i],)),
                hays.len() == it.index(),
                gives(haystack, all.take(it.index() as int), hays),
                found@ == scored(query@, all.take(it.index() as int), hays),
        {
            let ghost i = it.index() as int;
            assert(all[i] == item);
            let hay = haystack(&item);
            let n = self.score(query, hay.as_str());
            proof {
                let before = hays;
                hays = hays.push(hay@);
                assert(all.take(i + 1).drop_last() =~= all.take(i));
                assert(all.take(i + 1).last() == item);
                lemma_scored_prefix(query@, all.take(i), before, hays);
                assert forall|j: int| 0 <= j < i + 1 implies may_give(haystack, all.take(i + 1)[j], #[trigger] hays[j]) by {
                    if j < i {
                        assert(may_give(haystack, all.take(i)[j], before[j]));
                        assert(all.take(i)[j] == all.take(i + 1)[j]);
                    } else {
                        assert(haystack.ensures((&item,), hay));
                    }
                }
            }
            if let Some(n) = n {
                found.push((n, item));
            }
        }
        assert(all.take(all.len() as int) =~= all);
        let r = best_of(found);
        assert(gives(haystack, all, hays));
        assert(r@ == ranked(whole, all, hays));
        r
    }
}

proof fn lemma_scored_prefix<T>(query: Seq<char>, items: Seq<T>, a: Seq<Seq<char>>, b: Seq<Seq<char>>)
    requires
        items.len() <= a.len(),
        items.len() <= b.len(),
        forall|i: int| 0 <= i < items.len() ==> a[i] == b[i],
    ensures
        scored(query, items, a) == scored(query, items, b),
    decreases items.len(),
{
    if items.len() > 0 {
        assert(a[items.len() - 1] == b[items.len() - 1]);
        lemma_scored_prefix(query, items.drop_last(), a, b);
    }
}

/// Ranking does not look at the items, only at the texts they are found by.
pub proof fn lemma_ranked_map<T, U>(query: Seq<char>, items: Seq<T>, hays: Seq<Seq<char>>, f: spec_fn(T) -> U)
    requires
        hays.len() == items.len(),
    ensures
        ranked(query, items, hays).map_values(f) == ranked(query, items.map_values(f), hays),
{
    let q = text::trimmed(query);
    let s = scored(q, items, hays);
    let g = |a: (u32, T)| (a.0, f(a.1));
    let lt = |a: (u32, T), b: (u32, T)| better(a, b);
    let over = |a: (u32, U), b: (u32, U)| better(a, b);
    lemma_scored_map(q, items, hays, f);
    crate::sort::lemma_sorted_map(s, lt, g, over);
    let t = crate::sort::sorted(s, lt);
    assert(t.map_values(|a: (u32, T)| a.1).map_values(f) =~= t.map_values(g).map_values(|a: (u32, U)| a.1));
}

proof fn lemma_scored_map<T, U>(query: Seq<char>, items: Seq<T>, hays: Seq<Seq<char>>, f: spec_fn(T) -> U)
    ensures
        scored(query, items, hays).map_values(|a: (u32, T)| (a.0, f(a.1))) == scored(query, items.map_values(f), hays),
    decreases items.len(),
{
    let g = |a: (u32, T)| (a.0, f(a.1));
    if items.len() > 0 {
        lemma_scored_map(query, items.drop_last(), hays, f);
        assert(items.map_values(f).drop_last() =~= items.drop_last().map_values(f));
    }
    assert(scored(query, items, hays).map_values(g) =~= scored(query, items.map_values(f), hays));
}

/// The matches with the score `n`.
pub open spec fn with_score<T>(s: Seq<(u32, T)>, n: u32) -> Seq<(u32, T)> {
    s.filter(|a: (u32, T)| a.0 == n)
}

/// What is ranked matches, and is ordered by how well; nothing that does not match comes up.
pub proof fn law_ranking<T>(query: Seq<char>, items: Seq<T>, hays: Seq<Seq<char>>)
    requires
        hays.len() == items.len(),
        text::trimmed(query).len() > 0,
    ensures
        ({
            let s = scored(text::trimmed(query), items, hays);
            let t = crate::sort::sorted(s, |a: (u32, T), b: (u32, T)| better(a, b));
            &&& ranked(query, items, hays) == t.map_values(|a: (u32, T)| a.1)
            &&& t.to_multiset() == s.to_multiset()
            &&& forall|i: int, j: int| 0 <= i < j < t.len() ==> (#[trigger] t[i]).0 >= (#[trigger] t[j]).0
            &&& forall|n: u32| with_score(t, n) == #[trigger] with_score(s, n)
        }),
{
    let s = scored(text::trimmed(query), items, hays);
    let lt = |a: (u32, T), b: (u32, T)| better(a, b);
    let t = crate::sort::sorted(s, lt);
    crate::sort::lemma_sorted(s, lt);
    assert forall|i: int, j: int| 0 <= i < j < t.len() implies (#[trigger] t[i]).0 >= (#[trigger] t[j]).0 by {
        assert(!lt(t[j], t[i]));
    }
    assert forall|n: u32| with_score(t, n) == #[trigger] with_score(s, n) by {
        crate::sort::lemma_stable(s, lt, |a: (u32, T)| a.0 == n);
    }
}

/// An item is among those with a score exactly where its text matches, with that score.
pub proof fn law_scores<T>(query: Seq<char>, items: Seq<T>, hays: Seq<Seq<char>>, i: int)
    requires
        hays.len() == items.len(),
        0 <= i < items.len(),
    ensures
        matching(query, hays[i]) matches Some(n) ==> scored(query, items, hays).contains((n, items[i])),
        forall|j: int| 0 <= j < scored(query, items, hays).len() ==> exists|k: int|
            0 <= k < items.len() && #[trigger] items[k] == (#[trigger] scored(query, items, hays)[j]).1 && matching(query, hays[k]) == Some(scored(query, items, hays)[j].0),
    decreases items.len(),
{
    let s = scored(query, items, hays);
    let rest = items.drop_last();
    let r = scored(query, rest, hays);
    lemma_scored_prefix(query, rest, hays, hays.drop_last());
    if rest.len() > 0 {
        law_scores(query, rest, hays.drop_last(), if i < rest.len() { i } else { 0 });
    }
    if i < rest.len() {
        if let Some(n) = matching(query, hays[i]) {
            assert(hays.drop_last()[i] == hays[i]);
            assert(r.contains((n, rest[i])));
            let k = choose|k: int| 0 <= k < r.len() && r[k] == (n, rest[i]);
            assert(s[k] == (n, items[i]));
        }
    } else if let Some(n) = matching(query, hays[i]) {
        assert(s[s.len() - 1] == (n, items[i]));
    }
    assert forall|j: int| 0 <= j < s.len() implies exists|k: int|
        0 <= k < items.len() && #[trigger] items[k] == (#[trigger] s[j]).1 && matching(query, hays[k]) == Some(s[j].0) by {
        if j < r.len() {
            assert(s[j] == r[j]);
            let k = choose|k: int| 0 <= k < rest.len() && #[trigger] rest[k] == r[j].1 && matching(query, hays.drop_last()[k]) == Some(r[j].0);
            assert(items[k] == s[j].1);
        } else {
            assert(items[items.len() - 1] == s[j].1);
        }
    }
}

/// Whether the item `k` is found: every item is by an empty query, and else those whose texts match.
pub open spec fn found<T>(query: Seq<char>, items: Seq<T>, hays: Seq<Seq<char>>, k: int) -> bool {
    &&& 0 <= k < items.len()
    &&& text::trimmed(query).len() == 0 || matching(text::trimmed(query), hays[k]) is Some
}

/// What comes up is exactly what is found.
pub proof fn law_ranked_are_the_found<T>(query: Seq<char>, items: Seq<T>, hays: Seq<Seq<char>>, x: T)
    requires
        hays.len() == items.len(),
    ensures
        ranked(query, items, hays).contains(x) <==> exists|k: int| #[trigger] found(query, items, hays, k) && items[k] == x,
{
    let q = text::trimmed(query);
    let r = ranked(query, items, hays);
    if q.len() == 0 {
        if r.contains(x) {
            let k = choose|k: int| 0 <= k < items.len() && items[k] == x;
            assert(found(query, items, hays, k));
        }
    } else {
        let s = scored(q, items, hays);
        let lt = |a: (u32, T), b: (u32, T)| better(a, b);
        let t = crate::sort::sorted(s, lt);
        law_ranking(query, items, hays);
        crate::sort::lemma_sorted_members(s, lt);
        if r.contains(x) {
            let i = choose|i: int| 0 <= i < r.len() && r[i] == x;
            assert(s.contains(t[i]));
            let j = choose|j: int| 0 <= j < s.len() && s[j] == t[i];
            if items.len() > 0 {
                law_scores(q, items, hays, 0);
            }
            let k = choose|k: int| 0 <= k < items.len() && items[k] == s[j].1 && matching(q, hays[k]) == Some(s[j].0);
            assert(found(query, items, hays, k));
        }
        assert forall|k: int| #[trigger] found(query, items, hays, k) && items[k] == x implies r.contains(x) by {
            law_scores(q, items, hays, k);
            let pair = (matching(q, hays[k])->0, x);
            assert(s.contains(pair));
            s.to_multiset_ensures();
            t.to_multiset_ensures();
            assert(s.to_multiset().count(pair) > 0);
            assert(t.contains(pair));
            let i = choose|i: int| 0 <= i < t.len() && t[i] == pair;
            assert(r[i] == x);
        }
    }
}

} // verus!
