//! JSON values as the rest of the library reads and writes them.

use crate::strmap::StrMap;
use vstd::prelude::*;

verus! {

/// A JSON number, by what is read of it.
#[derive(Debug, PartialEq)]
pub struct Number {
    /// Its value, where that is a whole number from zero up.
    pub uint: Option<u64>,
    /// How it is written.
    pub text: String,
    /// A million times its value, cut to a whole number and to the range of the type.
    pub micros: i64,
}

/// A JSON value.
#[derive(Debug, PartialEq)]
pub enum Json {
    Null,
    Bool(bool),
    Number(Number),
    Text(String),
    List(Vec<Json>),
    Object(StrMap<Json>),
}

/// What a [`Number`] stands for.
pub struct NumberModel {
    pub uint: Option<u64>,
    pub text: Seq<char>,
    pub micros: i64,
}

/// What a [`Json`] stands for. An object's keys ascend.
pub enum JsonModel {
    Null,
    Bool(bool),
    Number(NumberModel),
    Text(Seq<char>),
    List(Seq<JsonModel>),
    Object(Seq<(Seq<char>, JsonModel)>),
}

impl View for Number {
    type V = NumberModel;

    open spec fn view(&self) -> NumberModel {
        NumberModel { uint: self.uint, text: self.text@, micros: self.micros }
    }
}

impl Json {
    /// What the value stands for.
    pub closed spec fn model(self) -> JsonModel
        decreases self,
    {
        match self {
            Json::Null => JsonModel::Null,
            Json::Bool(b) => JsonModel::Bool(b),
            Json::Number(n) => JsonModel::Number(n@),
            Json::Text(s) => JsonModel::Text(s@),
            Json::List(a) => JsonModel::List(
                Seq::new(
                    a@.len(),
                    |i: int|
                        if 0 <= i < a@.len() {
                            a@[i].model()
                        } else {
                            JsonModel::Null
                        },
                ),
            ),
            Json::Object(o) => JsonModel::Object(
                Seq::new(
                    o.entries@.len(),
                    |i: int|
                        if 0 <= i < o.entries@.len() {
                            (o.entries@[i].0@, o.entries@[i].1.model())
                        } else {
                            (Seq::empty(), JsonModel::Null)
                        },
                ),
            ),
        }
    }
}

impl View for Json {
    type V = JsonModel;

    open spec fn view(&self) -> JsonModel {
        self.model()
    }
}

impl DeepView for Json {
    type V = JsonModel;

    open spec fn deep_view(&self) -> JsonModel {
        self.model()
    }
}

impl Clone for Number {
    fn clone(&self) -> (r: Number)
        ensures
            r@ == self@,
    {
        Number { uint: self.uint, text: self.text.clone(), micros: self.micros }
    }
}

impl DeepView for Number {
    type V = NumberModel;

    open spec fn deep_view(&self) -> NumberModel {
        self@
    }
}

/// The number `n`.
pub open spec fn whole(n: int) -> NumberModel {
    NumberModel {
        uint: if 0 <= n <= u64::MAX { Some(n as u64) } else { None },
        text: if n >= 0 { crate::text::decimal(n as nat) } else { seq!['-'] + crate::text::decimal((-n) as nat) },
        micros: if n * 1_000_000 > i64::MAX { i64::MAX } else { (n * 1_000_000) as i64 },
    }
}

/// The value under `k`, where `v` is an object with that key.
pub open spec fn field(v: JsonModel, k: Seq<char>) -> Option<JsonModel> {
    match v {
        JsonModel::Object(o) => crate::strmap::lookup(o, k),
        _ => None,
    }
}

/// The value under `k`; null where there is none.
pub open spec fn at(v: JsonModel, k: Seq<char>) -> JsonModel {
    match field(v, k) {
        Some(x) => x,
        None => JsonModel::Null,
    }
}

/// The text that `v` is.
pub open spec fn text(v: JsonModel) -> Option<Seq<char>> {
    match v {
        JsonModel::Text(s) => Some(s),
        _ => None,
    }
}

/// The number that `v` is.
pub open spec fn number(v: JsonModel) -> Option<NumberModel> {
    match v {
        JsonModel::Number(n) => Some(n),
        _ => None,
    }
}

/// The whole number from zero up that `v` is.
pub open spec fn uint(v: JsonModel) -> Option<u64> {
    match v {
        JsonModel::Number(n) => n.uint,
        _ => None,
    }
}

/// The truth value that `v` is.
pub open spec fn truth(v: JsonModel) -> Option<bool> {
    match v {
        JsonModel::Bool(b) => Some(b),
        _ => None,
    }
}

/// The list that `v` is.
pub open spec fn list(v: JsonModel) -> Option<Seq<JsonModel>> {
    match v {
        JsonModel::List(l) => Some(l),
        _ => None,
    }
}

/// How a character stands inside a JSON string.
pub open spec fn escape(c: char) -> Seq<char> {
    if c == '"' {
        seq!['\\', '"']
    } else if c == '\\' {
        seq!['\\', '\\']
    } else if c == '\u{8}' {
        seq!['\\', 'b']
    } else if c == '\t' {
        seq!['\\', 't']
    } else if c == '\n' {
        seq!['\\', 'n']
    } else if c == '\u{c}' {
        seq!['\\', 'f']
    } else if c == '\r' {
        seq!['\\', 'r']
    } else if (c as u32) < 32 {
        seq!['\\', 'u', '0', '0', hex((c as u32 / 16) as int), hex((c as u32 % 16) as int)]
    } else {
        seq![c]
    }
}

/// The hexadecimal digit `n`, in lower case.
pub open spec fn hex(n: int) -> char {
    if n < 10 {
        (48 + n) as char
    } else {
        (87 + n) as char
    }
}

/// The characters of `s` as they stand inside a JSON string.
pub open spec fn escaped(s: Seq<char>) -> Seq<char>
    decreases s.len(),
{
    if s.len() == 0 {
        Seq::empty()
    } else {
        escaped(s.drop_last()) + escape(s.last())
    }
}

/// `s` as a JSON string.
pub open spec fn quoted(s: Seq<char>) -> Seq<char> {
    seq!['"'] + escaped(s) + seq!['"']
}

/// `v` as JSON text, with no white space between its parts.
pub open spec fn written(v: JsonModel) -> Seq<char>
    decreases v,
{
    match v {
        JsonModel::Null => "null"@,
        JsonModel::Bool(b) => if b { "true"@ } else { "false"@ },
        JsonModel::Number(n) => n.text,
        JsonModel::Text(s) => quoted(s),
        JsonModel::List(l) => seq!['['] + written_items(l) + seq![']'],
        JsonModel::Object(o) => seq!['{'] + written_fields(o) + seq!['}'],
    }
}

/// The items of a list, with commas between them.
pub open spec fn written_items(l: Seq<JsonModel>) -> Seq<char>
    decreases l,
{
    if l.len() == 0 {
        Seq::empty()
    } else if l.len() == 1 {
        written(l[0])
    } else {
        written_items(l.subrange(0, l.len() - 1)) + seq![','] + written(l[l.len() - 1])
    }
}

/// The fields of an object, with commas between them.
pub open spec fn written_fields(o: Seq<(Seq<char>, JsonModel)>) -> Seq<char>
    decreases o,
{
    if o.len() == 0 {
        Seq::empty()
    } else {
        let last = o[o.len() - 1];
        let own = quoted(last.0) + seq![':'] + written(last.1);
        if o.len() == 1 {
            own
        } else {
            written_fields(o.subrange(0, o.len() - 1)) + seq![','] + own
        }
    }
}

/// `s` as a JSON string, by serde_json's `Display` of a string [`serde_json::Value`]. Trusted: the
/// text stands between double quotes, with a backslash before a double quote or a backslash, the short
/// escapes for backspace, tab, line feed, form feed and carriage return, four hexadecimal digits for
/// the other characters below the space, and every other character as it is.
#[verifier::external_body]
fn quote(s: &str) -> (r: String)
    ensures
        r@ == quoted(s@),
{
    serde_json::Value::String(s.to_string()).to_string()
}

impl Json {
    /// The value `s`.
    pub fn text(s: String) -> (r: Json)
        ensures
            r@ == JsonModel::Text(s@),
    {
        Json::Text(s)
    }

    /// The value `b`.
    pub fn flag(b: bool) -> (r: Json)
        ensures
            r@ == JsonModel::Bool(b),
    {
        Json::Bool(b)
    }

    /// The value `n`.
    pub fn number(n: Number) -> (r: Json)
        ensures
            r@ == JsonModel::Number(n@),
    {
        Json::Number(n)
    }

    /// The number `n`.
    pub fn signed(n: i32) -> (r: Json)
        ensures
            r@ == JsonModel::Number(whole(n as int)),
    {
        let micros: i64 = n as i64 * 1_000_000;
        if n >= 0 {
            Json::Number(Number { uint: Some(n as u64), text: crate::text::decimal_text(n as u64), micros })
        } else {
            let m: i64 = -(n as i64);
            let digits = crate::text::decimal_text(m as u64);
            let mut sign = String::new();
            sign.push('-');
            let text = crate::text::cat2(sign.as_str(), digits.as_str());
            assert(text@ =~= seq!['-'] + crate::text::decimal((-n) as nat));
            Json::Number(Number { uint: None, text, micros })
        }
    }

    /// The whole number `n`.
    pub fn count(n: u64) -> (r: Json)
        ensures
            r@ == JsonModel::Number(whole(n as int)),
    {
        let micros: i64 = if n <= 9_223_372_036_854 { n as i64 * 1_000_000 } else { i64::MAX };
        Json::Number(Number { uint: Some(n), text: crate::text::decimal_text(n), micros })
    }

    /// A list.
    pub fn list(l: Vec<Json>) -> (r: Json)
        ensures
            r@ == JsonModel::List(l.deep_view()),
    {
        let r = Json::List(l);
        assert(r@->List_0 =~= l.deep_view());
        r
    }

    /// An object.
    pub fn object(o: StrMap<Json>) -> (r: Json)
        ensures
            r@ == JsonModel::Object(o.deep_view()),
    {
        proof {
            o.lemma_view();
        }
        let r = Json::Object(o);
        assert(r@->Object_0 =~= o.deep_view());
        r
    }

    /// The value under `k`, where this is an object with that key.
    pub fn get(&self, k: &str) -> (r: Option<&Json>)
        ensures
            r.deep_view() == field(self@, k@),
    {
        match self {
            Json::Object(o) => {
                proof {
                    o.lemma_view();
                    crate::strmap::lemma_mapped(o@, self@->Object_0, k@);
                    crate::strmap::lemma_place(o@, k@);
                }
                o.get(k)
            },
            _ => None,
        }
    }

    /// The text that this is.
    pub fn as_str(&self) -> (r: Option<&str>)
        ensures
            r.deep_view() == text(self@),
    {
        match self {
            Json::Text(s) => Some(s.as_str()),
            _ => None,
        }
    }

    /// The number that this is.
    pub fn as_number(&self) -> (r: Option<&Number>)
        ensures
            r.deep_view() == number(self@),
    {
        match self {
            Json::Number(n) => Some(n),
            _ => None,
        }
    }

    /// The whole number from zero up that this is.
    pub fn as_u64(&self) -> (r: Option<u64>)
        ensures
            r == uint(self@),
    {
        match self {
            Json::Number(n) => n.uint,
            _ => None,
        }
    }

    /// The truth value that this is.
    pub fn as_bool(&self) -> (r: Option<bool>)
        ensures
            r == truth(self@),
    {
        match self {
            Json::Bool(b) => Some(*b),
            _ => None,
        }
    }

    /// The list that this is.
    pub fn as_array(&self) -> (r: Option<&Vec<Json>>)
        ensures
            r.deep_view() == list(self@),
    {
        match self {
            Json::List(l) => {
                assert(self@->List_0 =~= l.deep_view());
                Some(l)
            },
            _ => None,
        }
    }

    /// The list that this is, or else this.
    pub fn into_array(self) -> (r: Result<Vec<Json>, Json>)
        ensures
            match r {
                Ok(l) => list(self@) == Some(l.deep_view()),
                Err(v) => list(self@) is None && v@ == self@,
            },
    {
        match self {
            Json::List(l) => {
                assert(self@->List_0 =~= l.deep_view());
                Ok(l)
            },
            v => Err(v),
        }
    }

    /// Whether this is null.
    pub fn is_null(&self) -> (r: bool)
        ensures
            r == (self@ is Null),
    {
        match self {
            Json::Null => true,
            _ => false,
        }
    }

    /// The text under `k`, where there is one.
    pub fn text_at(&self, k: &str) -> (r: Option<&str>)
        ensures
            r.deep_view() == text(at(self@, k@)),
    {
        match self.get(k) {
            Some(v) => v.as_str(),
            None => None,
        }
    }

    /// This as JSON text.
    pub fn to_text(&self) -> (r: String)
        ensures
            r@ == written(self@),
    {
        let mut out = String::new();
        self.push_text(&mut out);
        assert(out@ =~= written(self@));
        out
    }

    /// Put this behind `out` as JSON text.
    fn push_text(&self, out: &mut String)
        ensures
            final(out)@ == old(out)@ + written(self@),
        decreases self,
    {
        let ghost start = out@;
        match self {
            Json::Null => out.append("null"),
            Json::Bool(b) => if *b { out.append("true") } else { out.append("false") },
            Json::Number(n) => out.append(n.text.as_str()),
            Json::Text(s) => out.append(quote(s.as_str()).as_str()),
            Json::List(l) => {
                assert(self@->List_0 =~= l.deep_view());
                out.push('[');
                push_items(l, out);
                out.push(']');
            },
            Json::Object(o) => {
                proof {
                    o.lemma_view();
                }
                assert(self@->Object_0 =~= o.deep_view());
                out.push('{');
                push_fields(o, out);
                out.push('}');
            },
        }
        assert(out@ =~= start + written(self@));
    }
}

/// Put the items of a list behind `out`, with commas between them.
fn push_items(l: &Vec<Json>, out: &mut String)
    ensures
        final(out)@ == old(out)@ + written_items(l.deep_view()),
    decreases l,
{
    let ghost items = l.deep_view();
    let ghost start = out@;
    let n: usize = l.len();
    for i in 0..n
        invariant
            n == l@.len(),
            items == l.deep_view(),
            out@ == start + written_items(items.subrange(0, i as int)),
        decreases n - i,
    {
        if i > 0 {
            out.push(',');
        }
        l[i].push_text(out);
        proof {
            let now = items.subrange(0, i + 1);
            assert(now.subrange(0, i as int) =~= items.subrange(0, i as int));
            assert(now[i as int] == l@[i as int]@);
        }
        assert(out@ =~= start + written_items(items.subrange(0, i + 1)));
    }
    assert(items.subrange(0, n as int) =~= items);
}

/// Put the fields of an object behind `out`, with commas between them.
fn push_fields(o: &StrMap<Json>, out: &mut String)
    ensures
        final(out)@ == old(out)@ + written_fields(o.deep_view()),
    decreases o,
{
    let ghost fields = o.deep_view();
    let ghost start = out@;
    let n: usize = o.entries.len();
    proof {
        o.lemma_view();
    }
    for i in 0..n
        invariant
            n == o.entries@.len(),
            fields == o.deep_view(),
            o@ == o.entries@.map_values(|e: (String, Json)| (e.0@, e.1)),
            out@ == start + written_fields(fields.subrange(0, i as int)),
        decreases n - i,
    {
        if i > 0 {
            out.push(',');
        }
        out.append(quote(o.entries[i].0.as_str()).as_str());
        out.push(':');
        o.entries[i].1.push_text(out);
        proof {
            let now = fields.subrange(0, i + 1);
            assert(now.subrange(0, i as int) =~= fields.subrange(0, i as int));
            assert(now[i as int] == (o.entries@[i as int].0@, o.entries@[i as int].1@));
        }
        assert(out@ =~= start + written_fields(fields.subrange(0, i + 1)));
    }
    assert(fields.subrange(0, n as int) =~= fields);
}

// ----- Laws ---------------------------------------------------------------------------------

/// How a value is written: words for null and truth, a number as it is, a text in quotes, and what a list or an
/// object holds in brackets, with commas between and a colon behind each key.
pub proof fn law_values_are_written(n: NumberModel, l: Seq<JsonModel>, v: JsonModel, k: Seq<char>, c: char)
    ensures
        written(JsonModel::Null) == "null"@ && written(JsonModel::Bool(true)) == "true"@ && written(JsonModel::Bool(false)) == "false"@,
        written(JsonModel::Number(n)) == n.text,
        written(JsonModel::List(seq![v])) == seq!['['] + written(v) + seq![']'],
        l.len() > 0 ==> written_items(l.push(v)) == written_items(l) + seq![','] + written(v),
        written(JsonModel::Object(seq![(k, v)])) == seq!['{'] + (written(JsonModel::Text(k)) + seq![':'] + written(v)) + seq!['}'],
        c != '"' && c != '\\' && c as u32 >= 32 ==> written(JsonModel::Text(seq![c])) == seq!['"', c, '"'],
        written(JsonModel::Text(seq!['"'])) == seq!['"', '\\', '"', '"'],
{
    reveal_with_fuel(escaped, 2);
    assert(l.push(v).subrange(0, l.len() as int) =~= l);
    assert(seq![c].drop_last() =~= Seq::empty());
    assert(seq!['"'].drop_last() =~= Seq::empty());
    assert(quoted(seq!['"']) =~= seq!['"', '\\', '"', '"']);
    if c != '"' && c != '\\' && c as u32 >= 32 {
        assert(quoted(seq![c]) =~= seq!['"', c, '"']);
    }
}

/// A whole number is what it counts, and is written with its digits.
pub proof fn law_whole_numbers(n: int)
    requires
        -9_000_000_000_000 < n < 9_000_000_000_000,
    ensures
        whole(n).micros == n * 1_000_000,
        n >= 0 ==> whole(n).uint == Some(n as u64) && whole(n).text == crate::text::decimal(n as nat),
        n < 0 ==> whole(n).uint is None && whole(n).text == seq!['-'] + crate::text::decimal((-n) as nat),
{
}

} // verus!
