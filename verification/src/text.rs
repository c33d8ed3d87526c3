//! Text helpers over characters: comparing, trimming, searching, building.

use vstd::prelude::*;

verus! {

/// Strict lexicographic order by code point, which is also the order of the UTF-8 bytes.
pub open spec fn lex_lt(a: Seq<char>, b: Seq<char>) -> bool
    decreases a.len(),
{
    if b.len() == 0 {
        false
    } else if a.len() == 0 {
        true
    } else if a[0] != b[0] {
        a[0] < b[0]
    } else {
        lex_lt(a.drop_first(), b.drop_first())
    }
}

/// The order is strict and total.
pub broadcast proof fn lemma_order_laws(a: Seq<char>, b: Seq<char>)
    ensures
        (#[trigger] lex_lt(a, b)) ==> !lex_lt(b, a) && a != b,
        !lex_lt(a, b) && a != b ==> lex_lt(b, a),
        forall|c: Seq<char>| lex_lt(a, b) && #[trigger] lex_lt(b, c) ==> lex_lt(a, c),
    decreases a.len(),
{
    if a.len() > 0 && b.len() > 0 && a[0] == b[0] {
        lemma_order_laws(a.drop_first(), b.drop_first());
        if a != b {
            assert(a =~= seq![a[0]] + a.drop_first());
            assert(b =~= seq![b[0]] + b.drop_first());
        }
    } else if a.len() == 0 && b.len() == 0 {
        assert(a =~= b);
    }
    assert forall|c: Seq<char>| lex_lt(a, b) && #[trigger] lex_lt(b, c) implies lex_lt(a, c) by {
        lemma_transitive(a, b, c);
    }
}

proof fn lemma_transitive(a: Seq<char>, b: Seq<char>, c: Seq<char>)
    requires
        lex_lt(a, b),
        lex_lt(b, c),
    ensures
        lex_lt(a, c),
    decreases a.len(),
{
    if a.len() > 0 && a[0] == b[0] && b[0] == c[0] {
        lemma_transitive(a.drop_first(), b.drop_first(), c.drop_first());
    }
}

/// How one text stands to another.
#[derive(Debug, Clone, Copy, PartialEq, Eq, Structural)]
pub enum Rel {
    Before,
    Same,
    After,
}

/// Where `a` stands to `b` in lexicographic order.
pub fn order(a: &str, b: &str) -> (r: Rel)
    ensures
        r == Rel::Before <==> lex_lt(a@, b@),
        r == Rel::Same <==> a@ == b@,
        r == Rel::After <==> lex_lt(b@, a@),
{
    let mut x = a.chars();
    let mut y = b.chars();
    loop
        invariant
            vstd::std_specs::iter::IteratorSpec::obeys_prophetic_iter_laws(&x),
            vstd::std_specs::iter::IteratorSpec::obeys_prophetic_iter_laws(&y),
            vstd::std_specs::iter::IteratorSpec::decrease(&x) is Some,
            lex_lt(a@, b@) == lex_lt(vstd::std_specs::iter::IteratorSpec::remaining(&x), vstd::std_specs::iter::IteratorSpec::remaining(&y)),
            lex_lt(b@, a@) == lex_lt(vstd::std_specs::iter::IteratorSpec::remaining(&y), vstd::std_specs::iter::IteratorSpec::remaining(&x)),
            a@ == b@ <==> vstd::std_specs::iter::IteratorSpec::remaining(&x) == vstd::std_specs::iter::IteratorSpec::remaining(&y),
        decreases vstd::std_specs::iter::IteratorSpec::decrease(&x)->0,
    {
        let ghost rx = vstd::std_specs::iter::IteratorSpec::remaining(&x);
        let ghost ry = vstd::std_specs::iter::IteratorSpec::remaining(&y);
        match (x.next(), y.next()) {
            (Some(c), Some(d)) => {
                if c != d {
                    return if c < d { Rel::Before } else { Rel::After };
                }
                assert(rx == seq![c] + vstd::std_specs::iter::IteratorSpec::remaining(&x));
                assert(ry == seq![d] + vstd::std_specs::iter::IteratorSpec::remaining(&y));
            },
            (None, None) => {
                assert(rx =~= ry);
                return Rel::Same;
            },
            (None, Some(_)) => return Rel::Before,
            (Some(_), None) => return Rel::After,
        }
    }
}

/// Whether the two texts are the same.
pub fn same(a: &str, b: &str) -> (r: bool)
    ensures
        r == (a@ == b@),
{
    let x = a.as_bytes();
    let y = b.as_bytes();
    proof {
        vstd::utf8::encode_utf8_decode_utf8(a@);
        vstd::utf8::encode_utf8_decode_utf8(b@);
    }
    if x.len() != y.len() {
        return false;
    }
    let n: usize = x.len();
    for i in 0..n
        invariant
            n == x@.len(),
            n == y@.len(),
            forall|j: int| 0 <= j < i ==> x@[j] == y@[j],
            x@ == vstd::utf8::encode_utf8(a@),
            y@ == vstd::utf8::encode_utf8(b@),
    {
        if x[i] != y[i] {
            return false;
        }
    }
    assert(x@ =~= y@);
    true
}

/// `String::push` appends one character.
pub assume_specification[ String::push ](s: &mut String, c: char)
    ensures
        final(s)@ == old(s)@.push(c),
;

/// `String::pop` takes the last character off and returns it; an empty text stays empty.
pub assume_specification[ String::pop ](s: &mut String) -> (c: Option<char>)
    ensures
        old(s)@.len() == 0 ==> c is None && final(s)@ == old(s)@,
        old(s)@.len() > 0 ==> c == Some(old(s)@.last()) && final(s)@ == old(s)@.drop_last(),
;

/// What `str::to_lowercase` makes of a text.
pub uninterp spec fn lowered(s: Seq<char>) -> Seq<char>;

/// The lowercase form of an ASCII character.
pub open spec fn ascii_lower(c: char) -> char {
    if 'A' <= c <= 'Z' {
        ((c as u32) + 32) as char
    } else {
        c
    }
}

/// `str::to_lowercase`: a function of the text alone, which maps an ASCII text letter by letter.
/// What it does to other characters (the Unicode tables) is left unsaid.
#[verifier::external_body]
pub(crate) fn lowercase(s: &str) -> (r: String)
    ensures
        r@ == lowered(s@),
        vstd::utf8::is_ascii_chars(s@) ==> r@ == s@.map_values(|c: char| ascii_lower(c)),
{
    s.to_lowercase()
}

/// The text's characters.
pub fn chars_of(s: &str) -> (r: Vec<char>)
    ensures
        r@ == s@,
{
    let mut out: Vec<char> = Vec::new();
    for c in it: s.chars()
        invariant
            it.seq() == s@,
            out@ == s@.take(it.index() as int),
    {
        out.push(c);
        assert(s@.take(it.index() as int + 1) =~= s@.take(it.index() as int).push(c));
    }
    assert(s@.take(s@.len() as int) =~= s@);
    out
}

/// Whether `s` begins with `p`.
pub open spec fn begins(s: Seq<char>, p: Seq<char>) -> bool {
    p.len() <= s.len() && s.take(p.len() as int) == p
}

/// Whether `s` ends with `p`.
pub open spec fn ends(s: Seq<char>, p: Seq<char>) -> bool {
    p.len() <= s.len() && s.skip(s.len() - p.len()) == p
}

/// Whether the characters of `p` stand in `s` from `at` on.
fn stands_at(s: &Vec<char>, p: &Vec<char>, at: usize) -> (r: bool)
    requires
        at + p@.len() <= s@.len(),
    ensures
        r == (s@.subrange(at as int, at + p@.len()) == p@),
{
    let n: usize = p.len();
    let m: usize = s.len();
    for i in 0..n
        invariant
            n == p@.len(),
            m == s@.len(),
            at + n <= m,
            forall|j: int| 0 <= j < i ==> s@[at + j] == p@[j],
    {
        if s[at + i] != p[i] {
            assert(s@.subrange(at as int, at + p@.len())[i as int] == s@[at + i]);
            return false;
        }
    }
    assert(s@.subrange(at as int, at + p@.len()) =~= p@);
    true
}

/// Whether `s` begins with `p`.
pub fn starts_with(s: &str, p: &str) -> (r: bool)
    ensures
        r == begins(s@, p@),
{
    let a = chars_of(s);
    let b = chars_of(p);
    assert(b@.len() <= a@.len() ==> a@.take(b@.len() as int) =~= a@.subrange(0, b@.len() as int));
    b.len() <= a.len() && stands_at(&a, &b, 0)
}

/// Whether `s` ends with `p`.
pub fn ends_with(s: &str, p: &str) -> (r: bool)
    ensures
        r == ends(s@, p@),
{
    let a = chars_of(s);
    let b = chars_of(p);
    if b.len() > a.len() {
        return false;
    }
    let at: usize = a.len() - b.len();
    assert(a@.skip(at as int) =~= a@.subrange(at as int, at + b@.len()));
    stands_at(&a, &b, at)
}

/// `s` without `p` in front, where `s` begins with it.
pub fn strip_prefix<'a>(s: &'a str, p: &str) -> (r: Option<&'a str>)
    ensures
        match r {
            Some(t) => begins(s@, p@) && t@ == s@.skip(p@.len() as int),
            None => !begins(s@, p@),
        },
{
    if starts_with(s, p) {
        let n: usize = s.unicode_len();
        let k: usize = p.unicode_len();
        let t = s.substring_char(k, n);
        assert(t@ =~= s@.skip(p@.len() as int));
        Some(t)
    } else {
        None
    }
}

/// The characters of Unicode's White_Space property.
pub open spec fn white(c: char) -> bool {
    ||| '\u{9}' <= c <= '\u{d}'
    ||| c == ' '
    ||| c == '\u{85}'
    ||| c == '\u{a0}'
    ||| c == '\u{1680}'
    ||| '\u{2000}' <= c <= '\u{200a}'
    ||| c == '\u{2028}'
    ||| c == '\u{2029}'
    ||| c == '\u{202f}'
    ||| c == '\u{205f}'
    ||| c == '\u{3000}'
}

/// Whether `c` is white space.
pub fn is_white(c: char) -> (r: bool)
    ensures
        r == white(c),
{
    ('\u{9}' <= c && c <= '\u{d}') || c == ' ' || c == '\u{85}' || c == '\u{a0}' || c == '\u{1680}'
        || ('\u{2000}' <= c && c <= '\u{200a}') || c == '\u{2028}' || c == '\u{2029}' || c == '\u{202f}'
        || c == '\u{205f}' || c == '\u{3000}'
}

/// `s` without the white space in front.
pub open spec fn trim_front(s: Seq<char>) -> Seq<char>
    decreases s.len(),
{
    if s.len() > 0 && white(s[0]) {
        trim_front(s.drop_first())
    } else {
        s
    }
}

/// `s` without the white space at its end.
pub open spec fn trim_back(s: Seq<char>) -> Seq<char>
    decreases s.len(),
{
    if s.len() > 0 && white(s.last()) {
        trim_back(s.drop_last())
    } else {
        s
    }
}

/// `s` without the white space at either end.
pub open spec fn trimmed(s: Seq<char>) -> Seq<char> {
    trim_back(trim_front(s))
}

/// `s` without the white space at either end.
pub fn trim<'a>(s: &'a str) -> (r: &'a str)
    ensures
        r@ == trimmed(s@),
{
    let v = chars_of(s);
    let n: usize = v.len();
    let mut from: usize = 0;
    assert(s@.skip(0) =~= s@);
    while from < n && is_white(v[from])
        invariant
            v@ == s@,
            n == v@.len(),
            from <= n,
            trim_front(s@) == trim_front(s@.skip(from as int)),
        decreases n - from,
    {
        assert(s@.skip(from as int).drop_first() =~= s@.skip(from + 1));
        from = from + 1;
    }
    let mut to: usize = n;
    assert(s@.skip(from as int) =~= s@.subrange(from as int, to as int));
    while from < to && is_white(v[to - 1])
        invariant
            v@ == s@,
            n == v@.len(),
            from <= to <= n,
            trimmed(s@) == trim_back(s@.subrange(from as int, to as int)),
        decreases to,
    {
        assert(s@.subrange(from as int, to as int).drop_last() =~= s@.subrange(from as int, to - 1));
        to = to - 1;
    }
    s.substring_char(from, to)
}

/// `s` without the `c`s at its end.
pub open spec fn trim_end_of(s: Seq<char>, c: char) -> Seq<char>
    decreases s.len(),
{
    if s.len() > 0 && s.last() == c {
        trim_end_of(s.drop_last(), c)
    } else {
        s
    }
}

/// `s` without the `c`s at its end.
pub fn trim_end<'a>(s: &'a str, c: char) -> (r: &'a str)
    ensures
        r@ == trim_end_of(s@, c),
{
    let v = chars_of(s);
    let mut to: usize = v.len();
    assert(s@ =~= s@.subrange(0, to as int));
    while 0 < to && v[to - 1] == c
        invariant
            v@ == s@,
            to <= v@.len(),
            trim_end_of(s@, c) == trim_end_of(s@.subrange(0, to as int), c),
        decreases to,
    {
        assert(s@.subrange(0, to as int).drop_last() =~= s@.subrange(0, to - 1));
        to = to - 1;
    }
    s.substring_char(0, to)
}

/// Where `c` first stands in `s`; the length of `s` where it does not.
pub open spec fn first_of(s: Seq<char>, c: char) -> int
    decreases s.len(),
{
    if s.len() == 0 || s[0] == c {
        0
    } else {
        1 + first_of(s.drop_first(), c)
    }
}

/// No `c` stands before the first, and one stands there if there is any.
pub proof fn lemma_first_of(s: Seq<char>, c: char)
    ensures
        0 <= first_of(s, c) <= s.len(),
        !before(s, c).contains(c),
        s.contains(c) <==> first_of(s, c) < s.len(),
        first_of(s, c) < s.len() ==> s[first_of(s, c)] == c,
    decreases s.len(),
{
    if s.len() > 0 && s[0] != c {
        let t = s.drop_first();
        lemma_first_of(t, c);
        let n = first_of(t, c);
        assert(before(s, c) =~= seq![s[0]] + before(t, c));
        assert forall|i: int| 0 <= i < n + 1 implies #[trigger] before(s, c)[i] != c by {
            if i > 0 {
                assert(before(t, c)[i - 1] == before(s, c)[i]);
                assert(before(t, c).contains(before(t, c)[i - 1]));
            }
        }
        if s.contains(c) {
            let i = choose|i: int| 0 <= i < s.len() && s[i] == c;
            assert(t[i - 1] == c);
        }
    } else {
        assert(before(s, c) =~= Seq::empty());
    }
}

/// The part of `s` before the first `c`; the whole of it where there is none.
pub open spec fn before(s: Seq<char>, c: char) -> Seq<char> {
    s.take(first_of(s, c))
}

/// The part of `s` before the first `c`; the whole of it where there is none.
pub fn split_before<'a>(s: &'a str, c: char) -> (r: &'a str)
    ensures
        r@ == before(s@, c),
{
    let v = chars_of(s);
    let n: usize = v.len();
    let mut i: usize = 0;
    assert(s@.skip(0) =~= s@);
    while i < n && v[i] != c
        invariant
            v@ == s@,
            n == v@.len(),
            i <= n,
            first_of(s@, c) == i + first_of(s@.skip(i as int), c),
        decreases n - i,
    {
        assert(s@.skip(i as int).drop_first() =~= s@.skip(i + 1));
        i = i + 1;
    }
    let r = s.substring_char(0, i);
    assert(r@ =~= s@.take(i as int));
    r
}

/// `s` with every `from` turned into `to`.
pub open spec fn swapped(s: Seq<char>, from: char, to: char) -> Seq<char> {
    s.map_values(|c: char| if c == from { to } else { c })
}

/// `s` with every `from` turned into `to`.
pub fn replace(s: &str, from: char, to: char) -> (r: String)
    ensures
        r@ == swapped(s@, from, to),
{
    let mut out = String::new();
    for c in it: s.chars()
        invariant
            it.seq() == s@,
            out@ == swapped(s@.take(it.index() as int), from, to),
    {
        out.push(if c == from { to } else { c });
        assert(swapped(s@.take(it.index() as int + 1), from, to) =~= swapped(s@.take(it.index() as int), from, to).push(if c == from { to } else { c }));
    }
    assert(s@.take(s@.len() as int) =~= s@);
    out
}

/// `a` followed by `b`.
pub fn cat2(a: &str, b: &str) -> (r: String)
    ensures
        r@ == a@ + b@,
{
    let mut s = a.to_owned();
    s.append(b);
    s
}

/// The three texts one after the other.
pub fn cat3(a: &str, b: &str, c: &str) -> (r: String)
    ensures
        r@ == a@ + b@ + c@,
{
    let mut s = cat2(a, b);
    s.append(c);
    s
}

/// The five texts one after the other.
pub fn cat5(a: &str, b: &str, c: &str, d: &str, e: &str) -> (r: String)
    ensures
        r@ == a@ + b@ + c@ + d@ + e@,
{
    let mut s = cat3(a, b, c);
    s.append(d);
    s.append(e);
    s
}

/// The decimal digit `n`.
pub open spec fn digit(n: int) -> char {
    (48 + n) as char
}

/// The decimal digits of `n`.
pub open spec fn decimal(n: nat) -> Seq<char>
    decreases n,
{
    if n < 10 {
        seq![digit(n as int)]
    } else {
        decimal(n / 10).push(digit((n % 10) as int))
    }
}

/// The decimal digits of `n`.
pub fn decimal_text(n: u64) -> (r: String)
    ensures
        r@ == decimal(n as nat),
    decreases n,
{
    let d: u8 = (n % 10) as u8;
    let c: char = (48 + d) as char;
    let mut s = if n < 10 { String::new() } else { decimal_text(n / 10) };
    s.push(c);
    assert(n < 10 ==> s@ =~= decimal(n as nat));
    s
}

/// Ten to the power `k`.
pub open spec fn tens(k: nat) -> nat
    decreases k,
{
    if k == 0 {
        1
    } else {
        10 * tens((k - 1) as nat)
    }
}

/// A number below ten to the power `k` has at most `k` digits.
pub proof fn lemma_decimal_len(n: nat, k: nat)
    requires
        n < tens(k),
        k > 0,
    ensures
        0 < decimal(n).len() <= k,
    decreases n,
{
    if n >= 10 {
        assert(k > 1) by {
            reveal_with_fuel(tens, 2);
        }
        lemma_decimal_len(n / 10, (k - 1) as nat);
    }
}

/// `n` blanks.
pub open spec fn blanks(n: nat) -> Seq<char> {
    Seq::new(n, |i: int| ' ')
}

/// `n` blanks.
pub fn spaces(n: usize) -> (r: String)
    ensures
        r@ == blanks(n as nat),
{
    let mut s = String::new();
    for i in 0..n
        invariant
            s@ == blanks(i as nat),
    {
        s.push(' ');
        assert(s@ =~= blanks((i + 1) as nat));
    }
    s
}

/// `s` behind as many blanks as it needs to be `w` wide.
pub open spec fn right_in(s: Seq<char>, w: nat) -> Seq<char> {
    blanks(if s.len() < w { (w - s.len()) as nat } else { 0 }) + s
}

/// `s` behind as many blanks as it needs to be `w` wide.
pub fn pad_left(s: &str, w: usize) -> (r: String)
    ensures
        r@ == right_in(s@, w as nat),
{
    let n: usize = s.unicode_len();
    let lead = spaces(if n < w { w - n } else { 0 });
    cat2(lead.as_str(), s)
}

/// `s` before as many blanks as it needs to be `w` wide.
pub open spec fn left_in(s: Seq<char>, w: nat) -> Seq<char> {
    s + blanks(if s.len() < w { (w - s.len()) as nat } else { 0 })
}

/// `s` before as many blanks as it needs to be `w` wide.
pub fn pad_right(s: &str, w: usize) -> (r: String)
    ensures
        r@ == left_in(s@, w as nat),
{
    let n: usize = s.unicode_len();
    let tail = spaces(if n < w { w - n } else { 0 });
    cat2(s, tail.as_str())
}

// ----- Laws ---------------------------------------------------------------------------------

/// Texts go by their first difference; what another begins with comes before it.
pub proof fn law_texts_are_ordered(a: Seq<char>, b: Seq<char>, k: int)
    requires
        0 <= k <= a.len() && k <= b.len(),
        a.take(k) == b.take(k),
    ensures
        k < a.len() && k < b.len() && a[k] != b[k] ==> (lex_lt(a, b) <==> a[k] < b[k]),
        k == a.len() && k < b.len() ==> lex_lt(a, b),
        k == b.len() ==> !lex_lt(a, b),
    decreases k,
{
    if k > 0 {
        assert(a[0] == a.take(k)[0] && b[0] == b.take(k)[0]);
        assert(a.drop_first().take(k - 1) =~= a.take(k).drop_first());
        assert(b.drop_first().take(k - 1) =~= b.take(k).drop_first());
        law_texts_are_ordered(a.drop_first(), b.drop_first(), k - 1);
    }
}

/// What stands before a character: everything up to its first occurrence, and the whole text where there is
/// none.
pub proof fn law_before(s: Seq<char>, c: char, i: int)
    ensures
        0 <= i < s.len() && s[i] == c && (forall|j: int| 0 <= j < i ==> s[j] != c) ==> before(s, c) == s.take(i),
        !s.contains(c) ==> before(s, c) == s,
    decreases s.len(),
{
    if s.len() > 0 && s[0] != c {
        let t = s.drop_first();
        law_before(t, c, i - 1);
        if 0 <= i < s.len() && s[i] == c && (forall|j: int| 0 <= j < i ==> s[j] != c) {
            assert(t[i - 1] == s[i]);
            assert forall|j: int| 0 <= j < i - 1 implies t[j] != c by {
                assert(t[j] == s[j + 1]);
            }
            lemma_first_of(t, c);
            assert(t.take(first_of(t, c)) == t.take(i - 1));
            assert(first_of(t, c) == i - 1) by {
                assert(t.take(first_of(t, c)).len() == t.take(i - 1).len());
            }
        }
        if !s.contains(c) {
            assert forall|j: int| 0 <= j < t.len() implies t[j] != c by {
                assert(t[j] == s[j + 1]);
                assert(s.contains(s[j + 1]));
            }
            lemma_first_of(t, c);
            assert(first_of(t, c) == t.len()) by {
                assert(t.take(first_of(t, c)).len() == t.len());
            }
            assert(s.take(s.len() as int) =~= s);
        }
    } else if s.len() > 0 {
        assert(s[0] == c);
        assert(s.contains(s[0]));
    } else {
        assert(s.take(0) =~= s);
    }
}

/// Padding puts blanks before or behind a text up to a width, and takes nothing from it.
pub proof fn law_padding(s: Seq<char>, w: nat)
    ensures
        right_in(s, w).len() == if s.len() < w { w } else { s.len() },
        left_in(s, w).len() == right_in(s, w).len(),
        ends(right_in(s, w), s),
        begins(left_in(s, w), s),
        forall|i: int| 0 <= i < right_in(s, w).len() - s.len() ==> #[trigger] right_in(s, w)[i] == ' ',
        forall|i: int| s.len() <= i < left_in(s, w).len() ==> #[trigger] left_in(s, w)[i] == ' ',
{
    let r = right_in(s, w);
    let l = left_in(s, w);
    assert(r.skip(r.len() - s.len()) =~= s);
    assert(l.take(s.len() as int) =~= s);
}

/// A number is written as its digits, the last of them what is left of it by ten.
pub proof fn law_decimals(n: nat)
    ensures
        decimal(n).len() > 0,
        decimal(n).last() == ('0' as u32 + n % 10) as char,
        n >= 10 ==> decimal(n).drop_last() == decimal(n / 10),
        n < 10 ==> decimal(n).len() == 1,
{
    if n >= 10 {
        assert(decimal(n).drop_last() =~= decimal(n / 10));
    }
}

/// Trimming takes white space from both ends and nothing else: what is left neither begins nor ends with any,
/// and all that was taken is white.
pub proof fn law_trimming(s: Seq<char>)
    ensures
        ({
            let t = trimmed(s);
            &&& t.len() > 0 ==> !white(t[0]) && !white(t.last())
            &&& exists|i: int, j: int|
                0 <= i <= j <= s.len() && #[trigger] s.subrange(i, j) == t && (forall|k: int| 0 <= k < i ==> white(#[trigger] s[k])) && (forall|k: int|
                    j <= k < s.len() ==> white(#[trigger] s[k]))
        }),
{
    let f = trim_front(s);
    lemma_trim_front(s);
    lemma_trim_back(f);
    let t = trim_back(f);
    let i = s.len() - f.len();
    let j = i + t.len();
    assert(s.subrange(i, j) =~= t);
    assert forall|k: int| j <= k < s.len() implies white(#[trigger] s[k]) by {
        assert(s[k] == f[k - i]);
    }
    if t.len() > 0 {
        assert(t[0] == f[0]);
    }
}

proof fn lemma_trim_front(s: Seq<char>)
    ensures
        trim_front(s).len() <= s.len(),
        trim_front(s) == s.skip(s.len() - trim_front(s).len()),
        forall|k: int| 0 <= k < s.len() - trim_front(s).len() ==> white(#[trigger] s[k]),
        trim_front(s).len() > 0 ==> !white(trim_front(s)[0]),
    decreases s.len(),
{
    if s.len() > 0 && white(s[0]) {
        let t = s.drop_first();
        lemma_trim_front(t);
        let f = trim_front(s);
        assert(s.skip(s.len() - f.len()) =~= t.skip(t.len() - f.len()));
        assert forall|k: int| 0 <= k < s.len() - f.len() implies white(#[trigger] s[k]) by {
            if k > 0 {
                assert(t[k - 1] == s[k]);
            }
        }
    } else {
        assert(s.skip(0) =~= s);
    }
}

proof fn lemma_trim_back(s: Seq<char>)
    ensures
        trim_back(s).len() <= s.len(),
        trim_back(s) == s.take(trim_back(s).len() as int),
        forall|k: int| trim_back(s).len() <= k < s.len() ==> white(#[trigger] s[k]),
        trim_back(s).len() > 0 ==> !white(trim_back(s).last()),
    decreases s.len(),
{
    if s.len() > 0 && white(s.last()) {
        let t = s.drop_last();
        lemma_trim_back(t);
        let b = trim_back(s);
        assert(s.take(b.len() as int) =~= t.take(b.len() as int));
        assert forall|k: int| b.len() <= k < s.len() implies white(#[trigger] s[k]) by {
            if k < t.len() {
                assert(t[k] == s[k]);
            }
        }
    } else {
        assert(s.take(s.len() as int) =~= s);
    }
}

/// Taking a character from the end of a text takes all of it that stands there, and nothing else.
pub proof fn law_trimming_ends(s: Seq<char>, c: char)
    ensures
        ({
            let t = trim_end_of(s, c);
            &&& begins(s, t)
            &&& t.len() > 0 ==> t.last() != c
            &&& forall|k: int| t.len() <= k < s.len() ==> #[trigger] s[k] == c
        }),
    decreases s.len(),
{
    let t = trim_end_of(s, c);
    if s.len() > 0 && s.last() == c {
        law_trimming_ends(s.drop_last(), c);
        assert(s.take(t.len() as int) =~= s.drop_last().take(t.len() as int));
        assert forall|k: int| t.len() <= k < s.len() implies #[trigger] s[k] == c by {
            if k < s.len() - 1 {
                assert(s.drop_last()[k] == s[k]);
            }
        }
    } else {
        assert(s.take(s.len() as int) =~= s);
    }
}

} // verus!
