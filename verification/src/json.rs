//! JSON values as the messages carry them, with the accessors that the
//! routing logic reads. Parsing and printing are done by the `json` crate.

use vstd::prelude::*;

use crate::text::str_equal;

verus! {

/// A JSON number: sign, decimal mantissa and decimal exponent, as the `json`
/// crate stores it (`value = ±mantissa · 10^exponent`).
#[derive(Debug, Clone, Copy, PartialEq, Eq, Structural)]
pub struct JsonNumber {
    pub positive: bool,
    pub mantissa: u64,
    pub exponent: i16,
}

/// A JSON value.
#[derive(Debug)]
pub enum Json {
    Null,
    Str(String),
    Number(JsonNumber),
    Bool(bool),
    Array(Vec<Json>),
    Object(Vec<(String, Json)>),
}

/// The mathematical content of a JSON value: strings become character
/// sequences, objects ordered sequences of (key, value) entries.
pub enum JsonView {
    Null,
    Str(Seq<char>),
    Number(JsonNumber),
    Bool(bool),
    Array(Seq<JsonView>),
    Object(Seq<(Seq<char>, JsonView)>),
}

/// The view of a JSON value.
pub open spec fn json_view(j: Json) -> JsonView
    decreases j,
{
    match j {
        Json::Null => JsonView::Null,
        Json::Str(s) => JsonView::Str(s@),
        Json::Number(n) => JsonView::Number(n),
        Json::Bool(b) => JsonView::Bool(b),
        Json::Array(v) => JsonView::Array(json_views(v@)),
        Json::Object(v) => JsonView::Object(entry_views(v@)),
    }
}

/// The views of a sequence of JSON values.
pub open spec fn json_views(s: Seq<Json>) -> Seq<JsonView>
    decreases s,
{
    if s.len() == 0 {
        Seq::empty()
    } else {
        seq![json_view(s[0])] + json_views(s.subrange(1, s.len() as int))
    }
}

/// The views of a sequence of object entries.
pub open spec fn entry_views(s: Seq<(String, Json)>) -> Seq<(Seq<char>, JsonView)>
    decreases s,
{
    if s.len() == 0 {
        Seq::empty()
    } else {
        seq![(s[0].0@, json_view(s[0].1))] + entry_views(s.subrange(1, s.len() as int))
    }
}

impl View for Json {
    type V = JsonView;

    open spec fn view(&self) -> JsonView {
        json_view(*self)
    }
}

/// The number that `json` builds from an `i64` (`Number::from`).
pub open spec fn spec_number_from_i64(x: i64) -> JsonNumber {
    if x < 0 {
        JsonNumber { positive: false, mantissa: (-(x as int)) as u64, exponent: 0 }
    } else {
        JsonNumber { positive: true, mantissa: x as u64, exponent: 0 }
    }
}

impl JsonNumber {
    /// The number for an integer.
    pub fn from_i64(x: i64) -> (r: JsonNumber)
        ensures
            r == spec_number_from_i64(x),
    {
        if x < 0 {
            let m: u64 = if x == i64::MIN {
                9223372036854775808u64
            } else {
                (-x) as u64
            };
            JsonNumber { positive: false, mantissa: m, exponent: 0 }
        } else {
            JsonNumber { positive: true, mantissa: x as u64, exponent: 0 }
        }
    }
}

impl JsonView {
    /// `as_i64` of the `json` crate: an integer (exponent 0) read as `i64`,
    /// its mantissa taken modulo 2^64 as in the crate's `mantissa as i64`.
    pub open spec fn spec_as_i64(self) -> Option<i64> {
        match self {
            JsonView::Number(n) => if n.exponent != 0 {
                None
            } else {
                let m = n.mantissa as i64;
                Some(
                    if n.positive || m == i64::MIN {
                        m
                    } else {
                        (-m) as i64
                    },
                )
            },
            _ => None,
        }
    }

    /// `as_u64` of the `json` crate: a non-negative integer.
    pub open spec fn spec_as_u64(self) -> Option<u64> {
        match self {
            JsonView::Number(n) => if n.positive && n.exponent == 0 {
                Some(n.mantissa)
            } else {
                None
            },
            _ => None,
        }
    }

    /// `as_str`: the text of a string value.
    pub open spec fn spec_as_str(self) -> Option<Seq<char>> {
        match self {
            JsonView::Str(s) => Some(s),
            _ => None,
        }
    }

    /// `as_bool`: the value of a boolean.
    pub open spec fn spec_as_bool(self) -> Option<bool> {
        match self {
            JsonView::Bool(b) => Some(b),
            _ => None,
        }
    }

    /// The value stored under `key` in an object (the first entry with that key).
    pub open spec fn spec_get(self, key: Seq<char>) -> Option<JsonView> {
        match self {
            JsonView::Object(es) => entries_get(es, key),
            _ => None,
        }
    }

    /// Indexing an object by a key: the member, or `Null` where there is none.
    pub open spec fn spec_member(self, key: Seq<char>) -> JsonView {
        match self.spec_get(key) {
            Some(v) => v,
            None => JsonView::Null,
        }
    }
}

/// The value of the first entry with `key`.
pub open spec fn entries_get(es: Seq<(Seq<char>, JsonView)>, key: Seq<char>) -> Option<JsonView>
    decreases es.len(),
{
    if es.len() == 0 {
        None
    } else if es[0].0 == key {
        Some(es[0].1)
    } else {
        entries_get(es.subrange(1, es.len() as int), key)
    }
}

/// The entries of `es` after the first `i`.
proof fn lemma_entry_views_skip(es: Seq<(String, Json)>, i: int)
    requires
        0 <= i < es.len(),
    ensures
        entry_views(es.subrange(i, es.len() as int)) == seq![(es[i].0@, json_view(es[i].1))]
            + entry_views(es.subrange(i + 1, es.len() as int)),
{
    let s = es.subrange(i, es.len() as int);
    assert(s[0] == es[i]);
    assert(s.subrange(1, s.len() as int) =~= es.subrange(i + 1, es.len() as int));
}

/// The view of the element at `i` of a sequence of values.
pub proof fn lemma_json_views_index(s: Seq<Json>, i: int)
    requires
        0 <= i < s.len(),
    ensures
        json_views(s).len() == s.len(),
        json_views(s)[i] == json_view(s[i]),
    decreases s.len(),
{
    if i == 0 {
        lemma_json_views_len(s);
    } else {
        lemma_json_views_index(s.subrange(1, s.len() as int), i - 1);
        lemma_json_views_len(s);
    }
}

/// The views of a sequence have its length.
pub proof fn lemma_json_views_len(s: Seq<Json>)
    ensures
        json_views(s).len() == s.len(),
    decreases s.len(),
{
    if s.len() > 0 {
        lemma_json_views_len(s.subrange(1, s.len() as int));
    }
}

/// The entry views of a sequence have its length and its keys.
pub proof fn lemma_entry_views_index(s: Seq<(String, Json)>, i: int)
    requires
        0 <= i < s.len(),
    ensures
        entry_views(s).len() == s.len(),
        entry_views(s)[i] == (s[i].0@, json_view(s[i].1)),
    decreases s.len(),
{
    lemma_entry_views_len(s);
    if i > 0 {
        lemma_entry_views_index(s.subrange(1, s.len() as int), i - 1);
    }
}

/// The entry views of a sequence have its length.
pub proof fn lemma_entry_views_len(s: Seq<(String, Json)>)
    ensures
        entry_views(s).len() == s.len(),
    decreases s.len(),
{
    if s.len() > 0 {
        lemma_entry_views_len(s.subrange(1, s.len() as int));
    }
}

impl Json {
    /// `as_i64` of the `json` crate.
    pub fn as_i64(&self) -> (r: Option<i64>)
        ensures
            r == self@.spec_as_i64(),
    {
        match self {
            Json::Number(n) => {
                if n.exponent != 0 {
                    None
                } else {
                    let m = n.mantissa as i64;
                    if n.positive || m == i64::MIN {
                        Some(m)
                    } else {
                        Some(-m)
                    }
                }
            },
            _ => None,
        }
    }

    /// `as_u64` of the `json` crate.
    pub fn as_u64(&self) -> (r: Option<u64>)
        ensures
            r == self@.spec_as_u64(),
    {
        match self {
            Json::Number(n) => if n.positive && n.exponent == 0 {
                Some(n.mantissa)
            } else {
                None
            },
            _ => None,
        }
    }

    /// `as_str` of the `json` crate.
    pub fn as_str(&self) -> (r: Option<&str>)
        ensures
            r is Some == self@.spec_as_str() is Some,
            r matches Some(s) ==> s@ == self@.spec_as_str()->0,
    {
        match self {
            Json::Str(s) => Some(s.as_str()),
            _ => None,
        }
    }

    /// `as_bool` of the `json` crate.
    pub fn as_bool(&self) -> (r: Option<bool>)
        ensures
            r == self@.spec_as_bool(),
    {
        match self {
            Json::Bool(b) => Some(*b),
            _ => None,
        }
    }

    /// Whether the value is an object.
    pub fn is_object(&self) -> (r: bool)
        ensures
            r == (self@ is Object),
    {
        match self {
            Json::Object(_) => true,
            _ => false,
        }
    }

    /// The member of an object stored under `key`.
    pub fn get(&self, key: &str) -> (r: Option<&Json>)
        ensures
            r is Some == self@.spec_get(key@) is Some,
            r matches Some(v) ==> v@ == self@.spec_get(key@)->0,
    {
        match self {
            Json::Object(es) => {
                assert(es@.subrange(0, es@.len() as int) =~= es@);
                assert(self@ == JsonView::Object(entry_views(es@)));
                let mut i: usize = 0;
                while i < es.len()
                    invariant
                        i <= es.len(),
                        self@ == JsonView::Object(entry_views(es@)),
                        entries_get(entry_views(es@), key@) == entries_get(
                            entry_views(es@.subrange(i as int, es@.len() as int)),
                            key@,
                        ),
                    decreases es.len() - i,
                {
                    proof {
                        lemma_entry_views_skip(es@, i as int);
                        let t = entry_views(es@.subrange(i as int, es@.len() as int));
                        assert(t.subrange(1, t.len() as int) =~= entry_views(
                            es@.subrange(i + 1, es@.len() as int),
                        ));
                    }
                    if str_equal(es[i].0.as_str(), key) {
                        proof {
                            lemma_entry_views_skip(es@, i as int);
                        }
                        return Some(&es[i].1);
                    }
                    i = i + 1;
                }
                proof {
                    assert(es@.subrange(es.len() as int, es@.len() as int) =~= Seq::empty());
                    assert(entry_views(Seq::<(String, Json)>::empty()) =~= Seq::empty());
                    assert(es@.subrange(0, es@.len() as int) =~= es@);
                }
                None
            },
            _ => None,
        }
    }

    /// A copy with the same view.
    pub fn deep_clone(&self) -> (r: Json)
        ensures
            r@ == self@,
        decreases self,
    {
        match self {
            Json::Null => Json::Null,
            Json::Str(s) => Json::Str(s.clone()),
            Json::Number(n) => Json::Number(*n),
            Json::Bool(b) => Json::Bool(*b),
            Json::Array(v) => {
                let mut out: Vec<Json> = Vec::new();
                let mut i: usize = 0;
                while i < v.len()
                    invariant
                        i <= v.len(),
                        *self == Json::Array(*v),
                        json_views(out@) == json_views(v@.subrange(0, i as int)),
                    decreases v.len() - i,
                {
                    assert((*self)->Array_0 == *v);
                    assert(decreases_to!(*self => (*self)->Array_0));
                    assert(decreases_to!(*v => v[i as int]));
                    assert(decreases_to!(*self => v[i as int]));
                    let c = v[i].deep_clone();
                    proof {
                        lemma_json_views_push(out@, c);
                        lemma_json_views_push(v@.subrange(0, i as int), v[i as int]);
                        assert(v@.subrange(0, i as int).push(v[i as int]) =~= v@.subrange(0, i + 1));
                    }
                    out.push(c);
                    i = i + 1;
                }
                assert(v@.subrange(0, v.len() as int) =~= v@);
                Json::Array(out)
            },
            Json::Object(es) => {
                let mut out: Vec<(String, Json)> = Vec::new();
                let mut i: usize = 0;
                while i < es.len()
                    invariant
                        i <= es.len(),
                        *self == Json::Object(*es),
                        entry_views(out@) == entry_views(es@.subrange(0, i as int)),
                    decreases es.len() - i,
                {
                    assert((*self)->Object_0 == *es);
                    assert(decreases_to!(*self => (*self)->Object_0));
                    assert(decreases_to!(*es => es[i as int]));
                    assert(decreases_to!(*self => es[i as int].1));
                    let c = es[i].1.deep_clone();
                    let k = es[i].0.clone();
                    proof {
                        lemma_entry_views_push(out@, (k, c));
                        lemma_entry_views_push(es@.subrange(0, i as int), es[i as int]);
                        assert(es@.subrange(0, i as int).push(es[i as int]) =~= es@.subrange(
                            0,
                            i + 1,
                        ));
                    }
                    out.push((k, c));
                    i = i + 1;
                }
                assert(es@.subrange(0, es.len() as int) =~= es@);
                Json::Object(out)
            },
        }
    }
}

/// Views of a sequence with one more element.
pub proof fn lemma_json_views_push(s: Seq<Json>, x: Json)
    ensures
        json_views(s.push(x)) == json_views(s).push(json_view(x)),
    decreases s.len(),
{
    let t = s.push(x);
    if s.len() == 0 {
        assert(t.subrange(1, t.len() as int) =~= Seq::<Json>::empty());
        assert(json_views(Seq::<Json>::empty()) =~= Seq::empty());
        assert(json_views(t) =~= seq![json_view(x)]);
    } else {
        assert(t.subrange(1, t.len() as int) =~= s.subrange(1, s.len() as int).push(x));
        lemma_json_views_push(s.subrange(1, s.len() as int), x);
        assert(json_views(t) =~= json_views(s).push(json_view(x)));
    }
}

/// Entry views of a sequence with one more entry.
pub proof fn lemma_entry_views_push(s: Seq<(String, Json)>, x: (String, Json))
    ensures
        entry_views(s.push(x)) == entry_views(s).push((x.0@, json_view(x.1))),
    decreases s.len(),
{
    let t = s.push(x);
    if s.len() == 0 {
        assert(t.subrange(1, t.len() as int) =~= Seq::<(String, Json)>::empty());
        assert(entry_views(Seq::<(String, Json)>::empty()) =~= Seq::empty());
        assert(entry_views(t) =~= seq![(x.0@, json_view(x.1))]);
    } else {
        assert(t.subrange(1, t.len() as int) =~= s.subrange(1, s.len() as int).push(x));
        lemma_entry_views_push(s.subrange(1, s.len() as int), x);
        assert(entry_views(t) =~= entry_views(s).push((x.0@, json_view(x.1))));
    }
}


#[verifier::external_type_specification]
#[verifier::external_body]
pub struct ExJsonValue(json::JsonValue);

/// The value that `json::parse` reads from a text, where the text is JSON.
pub uninterp spec fn spec_json_parse(s: Seq<char>) -> Option<JsonView>;

/// The compact text that `JsonValue::dump` writes for a value.
pub uninterp spec fn spec_json_dump(v: JsonView) -> Seq<char>;

/// The text that `json`'s `Display` writes for a number.
pub uninterp spec fn spec_number_text(n: JsonNumber) -> Seq<char>;

/// The `json` crate's value for ours: one variant for the other, fields moved.
#[verifier::external_body]
fn export_json(v: &Json) -> json::JsonValue {
    match v {
        Json::Null => json::JsonValue::Null,
        Json::Str(s) => json::JsonValue::String(s.clone()),
        Json::Number(n) => json::JsonValue::Number(json::number::Number::from_parts(n.positive, n.mantissa, n.exponent)),
        Json::Bool(b) => json::JsonValue::Boolean(*b),
        Json::Array(a) => json::JsonValue::Array(a.iter().map(export_json).collect()),
        Json::Object(es) => {
            let mut o = json::object::Object::new();
            es.iter().for_each(|(k, x)| o.insert(k, export_json(x)));
            json::JsonValue::Object(o)
        },
    }
}

/// Our value for the `json` crate's: one variant for the other, fields moved.
#[verifier::external_body]
fn import_json(v: &json::JsonValue) -> Json {
    match v {
        json::JsonValue::Null => Json::Null,
        json::JsonValue::Short(s) => Json::Str(s.to_string()),
        json::JsonValue::String(s) => Json::Str(s.clone()),
        json::JsonValue::Number(n) => {
            let (positive, mantissa, exponent) = n.as_parts();
            Json::Number(JsonNumber { positive, mantissa, exponent })
        },
        json::JsonValue::Boolean(b) => Json::Bool(*b),
        json::JsonValue::Object(o) => Json::Object(o.iter().map(|(k, x)| (k.to_string(), import_json(x))).collect()),
        json::JsonValue::Array(a) => Json::Array(a.iter().map(import_json).collect()),
    }
}

/// `json::parse`: the value written in a text, or `None` where the text is not
/// JSON. The value is named by `spec_json_parse`.
#[verifier::external_body]
pub(crate) fn parse_json(s: &str) -> (r: Option<Json>)
    ensures
        r is Some == spec_json_parse(s@) is Some,
        r matches Some(v) ==> v@ == spec_json_parse(s@)->0,
{
    json::parse(s).ok().map(|v| import_json(&v))
}

/// `JsonValue::dump`: the compact JSON text of a value, named by `spec_json_dump`.
#[verifier::external_body]
pub(crate) fn dump(v: &Json) -> (r: String)
    ensures
        r@ == spec_json_dump(v@),
{
    export_json(v).dump()
}

/// `json`'s `Display` of a number, named by `spec_number_text`.
#[verifier::external_body]
pub(crate) fn number_text(n: JsonNumber) -> (r: String)
    ensures
        r@ == spec_number_text(n),
{
    json::number::Number::from_parts(n.positive, n.mantissa, n.exponent).to_string()
}

/// What `to_string` (the `Display` of `JsonValue`) writes: the raw text of a
/// string, `null`, `true`/`false`, the number's text, and the compact JSON
/// text of arrays and objects.
pub open spec fn spec_json_display(v: JsonView) -> Seq<char> {
    match v {
        JsonView::Str(s) => s,
        JsonView::Null => "null"@,
        JsonView::Bool(b) => if b { "true"@ } else { "false"@ },
        JsonView::Number(n) => spec_number_text(n),
        _ => spec_json_dump(v),
    }
}

/// The `Display` text of a value.
pub fn display(v: &Json) -> (r: String)
    ensures
        r@ == spec_json_display(v@),
{
    match v {
        Json::Str(s) => s.clone(),
        Json::Null => String::from_str("null"),
        Json::Bool(b) => if *b { String::from_str("true") } else { String::from_str("false") },
        Json::Number(n) => number_text(*n),
        _ => dump(v),
    }
}

} // verus!
