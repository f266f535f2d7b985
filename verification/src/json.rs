//! A JSON document tree held as plain library values, with the lookups the
//! response parser needs and the compact text form that `serde_json` prints.

use vstd::prelude::*;
use crate::text::{owned, push_char};


verus! {

/// A JSON value.  Numbers keep their printed text; object entries keep their order.
pub enum Json {
    Null,
    Bool(bool),
    Number(String),
    Str(String),
    Array(Vec<Json>),
    Object(Vec<(String, Json)>),
}

/// The mathematical value of a JSON tree.
pub enum JsonV {
    Null,
    Bool(bool),
    Number(Seq<char>),
    Str(Seq<char>),
    Array(Seq<JsonV>),
    Object(Seq<(Seq<char>, JsonV)>),
}

pub open spec fn jv(v: Json) -> JsonV
    decreases v,
{
    match v {
        Json::Null => JsonV::Null,
        Json::Bool(b) => JsonV::Bool(b),
        Json::Number(n) => JsonV::Number(n@),
        Json::Str(s) => JsonV::Str(s@),
        Json::Array(items) => JsonV::Array(jv_items(items@)),
        Json::Object(es) => JsonV::Object(jv_entries(es@)),
    }
}

pub open spec fn jv_items(s: Seq<Json>) -> Seq<JsonV>
    decreases s,
{
    if s.len() == 0 {
        seq![]
    } else {
        jv_items(s.drop_last()).push(jv(s.last()))
    }
}

pub open spec fn jv_entries(s: Seq<(String, Json)>) -> Seq<(Seq<char>, JsonV)>
    decreases s,
{
    if s.len() == 0 {
        seq![]
    } else {
        jv_entries(s.drop_last()).push((s.last().0@, jv(s.last().1)))
    }
}


pub proof fn lemma_jv_items(s: Seq<Json>)
    ensures
        jv_items(s).len() == s.len(),
        forall|i: int| 0 <= i < s.len() ==> #[trigger] jv_items(s)[i] == jv(s[i]),
    decreases s.len(),
{
    if s.len() > 0 {
        lemma_jv_items(s.drop_last());
    }
}

pub proof fn lemma_jv_entries(s: Seq<(String, Json)>)
    ensures
        jv_entries(s).len() == s.len(),
        forall|i: int|
            0 <= i < s.len() ==> #[trigger] jv_entries(s)[i] == (s[i].0@, jv(s[i].1)),
    decreases s.len(),
{
    if s.len() > 0 {
        lemma_jv_entries(s.drop_last());
    }
}

/// The value of the first entry named `key`, as `serde_json::Value::get` finds it.
pub open spec fn lookup(es: Seq<(Seq<char>, JsonV)>, key: Seq<char>) -> Option<JsonV>
    decreases es.len(),
{
    if es.len() == 0 {
        None
    } else if es[0].0 == key {
        Some(es[0].1)
    } else {
        lookup(es.drop_first(), key)
    }
}

/// `value.get(key)` on a JSON value: objects only.
pub open spec fn field(v: JsonV, key: Seq<char>) -> Option<JsonV> {
    match v {
        JsonV::Object(es) => lookup(es, key),
        _ => None,
    }
}

/// `value.as_str()`.
pub open spec fn str_value(v: JsonV) -> Option<Seq<char>> {
    match v {
        JsonV::Str(s) => Some(s),
        _ => None,
    }
}

/// `value.get(key).and_then(Value::as_str)`.
pub open spec fn str_field(v: JsonV, key: Seq<char>) -> Option<Seq<char>> {
    match field(v, key) {
        Some(f) => str_value(f),
        None => None,
    }
}

/// `value.get(key).and_then(Value::as_array)`.
pub open spec fn array_field(v: JsonV, key: Seq<char>) -> Option<Seq<JsonV>> {
    match field(v, key) {
        Some(JsonV::Array(items)) => Some(items),
        _ => None,
    }
}

impl Json {
    /// `Value::get` with a string key.
    #[verifier::loop_isolation(false)]
    pub fn get(&self, key: &str) -> (r: Option<&Json>)
        ensures
            r is None <==> field(jv(*self), key@) is None,
            r matches Some(x) ==> field(jv(*self), key@) == Some(jv(*x)),
    {
        match self {
            Json::Object(es) => {
                proof {
                    lemma_jv_entries(es@);
                }
                let ghost e = jv_entries(es@);
                assert(e.subrange(0, e.len() as int) =~= e);
                let mut i: usize = 0;
                while i < es.len()
                    invariant
                        e == jv_entries(es@),
                        e.len() == es@.len(),
                        forall|k: int|
                            0 <= k < es@.len() ==> #[trigger] e[k] == (es@[k].0@, jv(es@[k].1)),
                        i <= es@.len(),
                        lookup(e, key@) == lookup(e.subrange(i as int, e.len() as int), key@),
                    decreases es@.len() - i,
                {
                    let ghost rest = e.subrange(i as int, e.len() as int);
                    assert(rest[0] == e[i as int]);
                    if crate::text::same_text(es[i].0.as_str(), key) {
                        assert(lookup(rest, key@) == Some(rest[0].1));
                        return Some(&es[i].1);
                    }
                    assert(rest.drop_first() =~= e.subrange(i + 1, e.len() as int));
                    i = i + 1;
                }
                None
            },
            _ => None,
        }
    }

    /// `Value::as_str`.
    pub fn as_str(&self) -> (r: Option<&String>)
        ensures
            r is None <==> str_value(jv(*self)) is None,
            r matches Some(x) ==> str_value(jv(*self)) == Some(x@),
    {
        match self {
            Json::Str(s) => Some(s),
            _ => None,
        }
    }

    /// `Value::as_array`.
    pub fn as_array(&self) -> (r: Option<&Vec<Json>>)
        ensures
            r is None <==> !(jv(*self) is Array),
            r matches Some(x) ==> jv(*self) == JsonV::Array(jv_items(x@)),
    {
        match self {
            Json::Array(items) => Some(items),
            _ => None,
        }
    }

    /// `Value::is_object`.
    pub fn is_object(&self) -> (b: bool)
        ensures
            b == (jv(*self) is Object),
    {
        match self {
            Json::Object(_) => true,
            _ => false,
        }
    }

    /// A deep copy.
    #[verifier::loop_isolation(false)]
    pub fn copy(&self) -> (r: Json)
        ensures
            jv(r) == jv(*self),
        decreases self,
    {
        match self {
            Json::Null => Json::Null,
            Json::Bool(b) => Json::Bool(*b),
            Json::Number(n) => Json::Number(n.clone()),
            Json::Str(s) => Json::Str(s.clone()),
            Json::Array(items) => {
                let mut out: Vec<Json> = Vec::new();
                let mut i: usize = 0;
                while i < items.len()
                    invariant
                        i <= items@.len(),
                        out@.len() == i,
                        forall|k: int| 0 <= k < i ==> #[trigger] jv(out@[k]) == jv(items@[k]),
                    decreases items@.len() - i,
                {
                    out.push(items[i].copy());
                    i = i + 1;
                }
                proof {
                    lemma_jv_items(out@);
                    lemma_jv_items(items@);
                    assert(jv_items(out@) =~= jv_items(items@));
                }
                Json::Array(out)
            },
            Json::Object(es) => {
                let mut out: Vec<(String, Json)> = Vec::new();
                let mut i: usize = 0;
                while i < es.len()
                    invariant
                        i <= es@.len(),
                        out@.len() == i,
                        forall|k: int|
                            0 <= k < i ==> #[trigger] out@[k].0@ == es@[k].0@ && jv(out@[k].1)
                                == jv(es@[k].1),
                    decreases es@.len() - i,
                {
                    let k = es[i].0.clone();
                    let v = es[i].1.copy();
                    out.push((k, v));
                    i = i + 1;
                }
                proof {
                    lemma_jv_entries(out@);
                    lemma_jv_entries(es@);
                    assert(jv_entries(out@) =~= jv_entries(es@));
                }
                Json::Object(out)
            },
        }
    }
}


/// Entries after `entries[key] = val`: the first entry named `key` takes the new
/// value, or a new entry is added at the end.
pub open spec fn set_entry(es: Seq<(Seq<char>, JsonV)>, key: Seq<char>, val: JsonV) -> Seq<
    (Seq<char>, JsonV),
>
    decreases es.len(),
{
    if es.len() == 0 {
        seq![(key, val)]
    } else if es[0].0 == key {
        es.update(0, (key, val))
    } else {
        seq![es[0]] + set_entry(es.drop_first(), key, val)
    }
}

/// The entries of an object; any other value counts as an empty object.
pub open spec fn entries_or_empty(v: JsonV) -> Seq<(Seq<char>, JsonV)> {
    match v {
        JsonV::Object(es) => es,
        _ => seq![],
    }
}

impl Json {
    /// `value[key] = val`, after turning a non-object into an empty object.
    #[verifier::loop_isolation(false)]
    pub fn with_field(self, key: String, val: Json) -> (r: Json)
        ensures
            jv(r) == JsonV::Object(set_entry(entries_or_empty(jv(self)), key@, jv(val))),
    {
        let mut es: Vec<(String, Json)> = match self {
            Json::Object(es) => es,
            _ => Vec::new(),
        };
        proof {
            lemma_jv_entries(es@);
        }
        let ghost e0 = jv_entries(es@);
        assert(e0 == entries_or_empty(jv(self)));
        assert(e0.subrange(0, e0.len() as int) =~= e0);
        assert(e0.subrange(0, 0) + set_entry(e0, key@, jv(val)) =~= set_entry(e0, key@, jv(val)));
        let ghost kv = key@;
        let ghost vv = jv(val);
        let mut i: usize = 0;
        while i < es.len()
            invariant
                i <= es@.len(),
                e0 == jv_entries(es@),
                e0.len() == es@.len(),
                forall|k: int| 0 <= k < es@.len() ==> #[trigger] e0[k] == (es@[k].0@, jv(es@[k].1)),
                forall|k: int| 0 <= k < i ==> es@[k].0@ != key@,
                set_entry(e0, key@, jv(val)) == e0.subrange(0, i as int) + set_entry(
                    e0.subrange(i as int, e0.len() as int),
                    key@,
                    jv(val),
                ),
            decreases es@.len() - i,
        {
            let ghost rest = e0.subrange(i as int, e0.len() as int);
            assert(rest[0] == e0[i as int]);
            if crate::text::same_text(es[i].0.as_str(), key.as_str()) {
                let ghost old_es = es@;
                es.set(i, (key, val));
                proof {
                    lemma_jv_entries(es@);
                    lemma_jv_entries(old_es);
                    assert(set_entry(rest, kv, vv) == rest.update(0, (kv, vv)));
                    assert(jv_entries(es@) =~= e0.subrange(0, i as int) + rest.update(0, (kv, vv)));
                }
                return Json::Object(es);
            }
            assert(rest.drop_first() =~= e0.subrange(i + 1, e0.len() as int));
            assert(set_entry(rest, kv, vv) == seq![rest[0]] + set_entry(rest.drop_first(), kv, vv));
            assert(e0.subrange(0, i + 1) =~= e0.subrange(0, i as int) + seq![rest[0]]);
            assert((e0.subrange(0, i as int) + seq![rest[0]]) + set_entry(rest.drop_first(), kv, vv)
                =~= e0.subrange(0, i as int) + (seq![rest[0]] + set_entry(rest.drop_first(), kv, vv)));
            i = i + 1;
        }
        let ghost old_es = es@;
        es.push((key, val));
        proof {
            lemma_jv_entries(es@);
            lemma_jv_entries(old_es);
            assert(e0.subrange(0, e0.len() as int) =~= e0);
            assert(e0.subrange(e0.len() as int, e0.len() as int) =~= Seq::<(Seq<char>, JsonV)>::empty());
            assert(jv_entries(es@) =~= e0 + seq![(kv, vv)]);
        }
        Json::Object(es)
    }
}

/// Reading a set entry gives back what was written; other entries are untouched.
pub proof fn lemma_lookup_set_entry(
    es: Seq<(Seq<char>, JsonV)>,
    key: Seq<char>,
    val: JsonV,
    other: Seq<char>,
)
    ensures
        lookup(set_entry(es, key, val), key) == Some(val),
        other != key ==> lookup(set_entry(es, key, val), other) == lookup(es, other),
    decreases es.len(),
{
    if es.len() > 0 && es[0].0 != key {
        lemma_lookup_set_entry(es.drop_first(), key, val, other);
        let s = set_entry(es, key, val);
        assert(s[0] == es[0]);
        assert(s.drop_first() =~= set_entry(es.drop_first(), key, val));
        assert(lookup(s, key) == lookup(s.drop_first(), key));
        if other != key {
            if es[0].0 == other {
                assert(lookup(s, other) == Some(es[0].1));
            } else {
                assert(lookup(s, other) == lookup(s.drop_first(), other));
                assert(lookup(es, other) == lookup(es.drop_first(), other));
            }
        }
    } else if es.len() > 0 {
        let s = set_entry(es, key, val);
        assert(s.drop_first() =~= es.drop_first());
        assert(s[0] == (key, val));
        if other != key {
            assert(lookup(s, other) == lookup(s.drop_first(), other));
            assert(lookup(es, other) == lookup(es.drop_first(), other));
        }
    } else {
        let s = set_entry(es, key, val);
        assert(s.drop_first() =~= Seq::<(Seq<char>, JsonV)>::empty());
        assert(s[0] == (key, val));
        if other != key {
            assert(lookup(s, other) == lookup(s.drop_first(), other));
        }
    }
}

#[verifier::external_type_specification]
#[verifier::external_body]
pub struct ExJsonValue(serde_json::Value);

/// What `serde_json::from_str::<Value>` makes of a text, in this library's terms
/// (`None` when the text is not JSON).
pub uninterp spec fn parsed_json(text: Seq<char>) -> Option<JsonV>;

/// `serde_json::from_str::<serde_json::Value>`: the parse result is only named.
#[verifier::external_body]
pub(crate) fn parse_json(text: &str) -> (r: Option<Json>)
    ensures
        r is None <==> parsed_json(text@) is None,
        r matches Some(j) ==> parsed_json(text@) == Some(jv(j)),
{
    serde_json::from_str::<serde_json::Value>(text).ok().map(from_serde)
}

/// Moves a `serde_json::Value` into the library's tree, variant for variant.
#[verifier::external_body]
fn from_serde(v: serde_json::Value) -> Json {
    match v {
        serde_json::Value::Null => Json::Null,
        serde_json::Value::Bool(b) => Json::Bool(b),
        serde_json::Value::Number(n) => Json::Number(n.to_string()),
        serde_json::Value::String(s) => Json::Str(s),
        serde_json::Value::Array(a) => Json::Array(a.into_iter().map(from_serde).collect()),
        serde_json::Value::Object(m) => Json::Object(m.into_iter().map(|(k, x)| (k, from_serde(x))).collect()),
    }
}

/// What `serde_json::Value`'s `Display` prints for a value (its compact JSON
/// text), in this library's terms.
pub uninterp spec fn json_text(v: JsonV) -> Seq<char>;

/// `serde_json::Value`'s `Display`: the text is only named.
#[verifier::external_body]
fn serde_text(v: &Json) -> (r: String)
    ensures
        r@ == json_text(jv(*v)),
{
    to_serde(v).to_string()
}

/// Copies the library's tree into a `serde_json::Value`, variant for variant.
#[verifier::external_body]
fn to_serde(v: &Json) -> serde_json::Value {
    match v {
        Json::Null => serde_json::Value::Null,
        Json::Bool(b) => serde_json::Value::Bool(*b),
        Json::Number(n) => n.parse().map(serde_json::Value::Number).unwrap_or(serde_json::Value::Null),
        Json::Str(s) => serde_json::Value::String(s.clone()),
        Json::Array(a) => serde_json::Value::Array(a.iter().map(to_serde).collect()),
        Json::Object(es) => serde_json::Value::Object(es.iter().map(|(k, x)| (k.clone(), to_serde(x))).collect()),
    }
}

impl Json {
    /// The compact JSON text of this value, as `serde_json` prints it.
    pub fn to_text(&self) -> (r: String)
        ensures
            r@ == json_text(jv(*self)),
    {
        serde_text(self)
    }
}

} // verus!
