//! The JSON documents that providers answer with, held as plain values, and
//! the operations on them that `serde_json` and `serde_json_path` perform.

use vstd::prelude::*;

verus! {

/// A JSON number as `serde_json` holds it: a non-negative integer, a
/// negative integer, or a finite float kept as the text `serde_json`
/// displays it with.
#[derive(Debug, Clone)]
pub enum JsonNumber {
    PosInt(u64),
    NegInt(i64),
    Float(String),
}

/// A JSON value. Object members keep the order in which they were given.
#[derive(Debug)]
pub enum JsonValue {
    Null,
    Bool(bool),
    Number(JsonNumber),
    String(String),
    Array(Vec<JsonValue>),
    Object(Vec<(String, JsonValue)>),
}

/// The mathematical model of a [`JsonNumber`].
pub enum NumberModel {
    PosInt(u64),
    NegInt(i64),
    Float(Seq<char>),
}

/// The mathematical model of a [`JsonValue`].
pub enum Json {
    Null,
    Bool(bool),
    Number(NumberModel),
    String(Seq<char>),
    Array(Seq<Json>),
    Object(Seq<(Seq<char>, Json)>),
}

impl View for JsonNumber {
    type V = NumberModel;

    open spec fn view(&self) -> NumberModel {
        match self {
            JsonNumber::PosInt(u) => NumberModel::PosInt(*u),
            JsonNumber::NegInt(i) => NumberModel::NegInt(*i),
            JsonNumber::Float(t) => NumberModel::Float(t@),
        }
    }
}

impl JsonValue {
    /// The mathematical model of this value.
    pub open spec fn model(self) -> Json
        decreases self,
    {
        match self {
            JsonValue::Null => Json::Null,
            JsonValue::Bool(b) => Json::Bool(b),
            JsonValue::Number(n) => Json::Number(n@),
            JsonValue::String(s) => Json::String(s@),
            JsonValue::Array(items) => Json::Array(
                Seq::new(
                    items@.len(),
                    |i: int|
                        if 0 <= i < items@.len() {
                            items@[i].model()
                        } else {
                            Json::Null
                        },
                ),
            ),
            JsonValue::Object(members) => Json::Object(
                Seq::new(
                    members@.len(),
                    |i: int|
                        if 0 <= i < members@.len() {
                            (members@[i].0@, members@[i].1.model())
                        } else {
                            (Seq::empty(), Json::Null)
                        },
                ),
            ),
        }
    }
}

impl View for JsonValue {
    type V = Json;

    open spec fn view(&self) -> Json {
        self.model()
    }
}

impl JsonNumber {
    /// A copy of this number.
    pub fn copy(&self) -> (r: JsonNumber)
        ensures
            r@ == self@,
    {
        match self {
            JsonNumber::PosInt(u) => JsonNumber::PosInt(*u),
            JsonNumber::NegInt(i) => JsonNumber::NegInt(*i),
            JsonNumber::Float(t) => JsonNumber::Float(t.clone()),
        }
    }
}

impl JsonValue {
    /// A deep copy of this value.
    pub fn copy(&self) -> (r: JsonValue)
        ensures
            r@ == self@,
        decreases self,
    {
        match self {
            JsonValue::Null => JsonValue::Null,
            JsonValue::Bool(b) => JsonValue::Bool(*b),
            JsonValue::Number(n) => JsonValue::Number(n.copy()),
            JsonValue::String(s) => JsonValue::String(s.clone()),
            JsonValue::Array(items) => {
                let mut out: Vec<JsonValue> = Vec::new();
                let mut i: usize = 0;
                while i < items.len()
                    invariant
                        i <= items@.len(),
                        *self is Array && self->Array_0 == *items,
                        out@.len() == i,
                        forall|k: int| 0 <= k < i ==> (#[trigger] out@[k])@ == items@[k]@,
                    decreases items@.len() - i,
                {
                    proof {
                        assert(decreases_to!(*self => self->Array_0));
                        assert(decreases_to!(*items => items[i as int]));
                    }
                    let x = items[i].copy();
                    out.push(x);
                    i = i + 1;
                }
                let r = JsonValue::Array(out);
                proof {
                    let a = r@->Array_0;
                    let b = self@->Array_0;
                    assert(a.len() == b.len());
                    assert forall|k: int| 0 <= k < a.len() implies a[k] == b[k] by {
                        assert(out@[k]@ == items@[k]@);
                    }
                    assert(a =~= b);
                }
                r
            },
            JsonValue::Object(members) => {
                let mut out: Vec<(String, JsonValue)> = Vec::new();
                let mut i: usize = 0;
                while i < members.len()
                    invariant
                        i <= members@.len(),
                        *self is Object && self->Object_0 == *members,
                        out@.len() == i,
                        forall|k: int|
                            0 <= k < i ==> (#[trigger] out@[k]).0@ == members@[k].0@ && out@[k].1@
                                == members@[k].1@,
                    decreases members@.len() - i,
                {
                    proof {
                        assert(decreases_to!(*self => self->Object_0));
                        assert(decreases_to!(*members => members[i as int]));
                        assert(decreases_to!(members[i as int] => members[i as int].1));
                    }
                    let key = members[i].0.clone();
                    let x = members[i].1.copy();
                    out.push((key, x));
                    i = i + 1;
                }
                let r = JsonValue::Object(out);
                proof {
                    let a = r@->Object_0;
                    let b = self@->Object_0;
                    assert(a.len() == b.len());
                    assert forall|k: int| 0 <= k < a.len() implies a[k] == b[k] by {
                        assert(out@[k].1@ == members@[k].1@);
                    }
                    assert(a =~= b);
                }
                r
            },
        }
    }
}

impl Clone for JsonValue {
    fn clone(&self) -> (r: Self)
        ensures
            r@ == self@,
    {
        self.copy()
    }
}

#[verifier::external_type_specification]
#[verifier::external_body]
pub struct ExSerdeJsonValue(serde_json::Value);

#[verifier::external_type_specification]
#[verifier::external_body]
pub struct ExSerdeJsonNumber(serde_json::Number);

impl JsonNumber {
    /// Converts a `serde_json::Number`: an integer that fits in `u64` becomes
    /// `PosInt`, another integer `NegInt`, a float the text that `serde_json`
    /// displays it with.
    #[verifier::external_body]
    fn from_serde(n: &serde_json::Number) -> JsonNumber {
        match (n.as_u64(), n.as_i64()) {
            (Some(u), _) => JsonNumber::PosInt(u),
            (None, Some(i)) => JsonNumber::NegInt(i),
            (None, None) => JsonNumber::Float(n.to_string()),
        }
    }

    /// Converts back to a `serde_json::Value`; float text that does not parse
    /// as a JSON number becomes `null`.
    #[verifier::external_body]
    fn to_serde(&self) -> serde_json::Value {
        match self {
            JsonNumber::PosInt(u) => serde_json::Value::from(*u),
            JsonNumber::NegInt(i) => serde_json::Value::from(*i),
            JsonNumber::Float(t) => t.parse().map(serde_json::Value::Number).unwrap_or_default(),
        }
    }
}

impl JsonValue {
    /// Converts a `serde_json::Value` into a plain value, member for member.
    #[verifier::external_body]
    fn from_serde(value: &serde_json::Value) -> JsonValue {
        match value {
            serde_json::Value::Null => JsonValue::Null,
            serde_json::Value::Bool(b) => JsonValue::Bool(*b),
            serde_json::Value::Number(n) => JsonValue::Number(JsonNumber::from_serde(n)),
            serde_json::Value::String(s) => JsonValue::String(s.clone()),
            serde_json::Value::Array(a) => JsonValue::Array(a.iter().map(JsonValue::from_serde).collect()),
            serde_json::Value::Object(m) => JsonValue::Object(
                m.iter().map(|(k, v)| (k.clone(), JsonValue::from_serde(v))).collect(),
            ),
        }
    }

    /// Converts into a `serde_json::Value`, member for member (a later member
    /// of an object replaces an earlier one with the same key).
    #[verifier::external_body]
    fn to_serde(&self) -> serde_json::Value {
        match self {
            JsonValue::Null => serde_json::Value::Null,
            JsonValue::Bool(b) => serde_json::Value::Bool(*b),
            JsonValue::Number(n) => n.to_serde(),
            JsonValue::String(s) => serde_json::Value::String(s.clone()),
            JsonValue::Array(a) => serde_json::Value::Array(a.iter().map(JsonValue::to_serde).collect()),
            JsonValue::Object(m) => serde_json::Value::Object(
                m.iter().map(|(k, v)| (k.clone(), v.to_serde())).collect(),
            ),
        }
    }
}

/// The first node that the JSONPath expression `path` selects in `doc`
/// (`serde_json_path::JsonPath::parse`, then `query`, then `first`), or
/// `None` when `path` does not parse or selects nothing.
pub uninterp spec fn json_path_first(path: Seq<char>, doc: Json) -> Option<Json>;

/// Evaluates a JSONPath expression with `serde_json_path` and returns the
/// first selected node. Nothing is claimed of the JSONPath semantics beyond
/// that the result is determined by `path` and `doc`.
#[verifier::external_body]
pub(crate) fn query_first(doc: &JsonValue, path: &str) -> (r: Option<JsonValue>)
    ensures
        match r {
            Some(v) => json_path_first(path@, doc@) == Some(v@),
            None => json_path_first(path@, doc@) is None,
        },
{
    let compiled = serde_json_path::JsonPath::parse(path).ok()?;
    let value = doc.to_serde();
    let first = compiled.query(&value).first().map(JsonValue::from_serde);
    first
}

/// The value that `serde_json` parses from `text` (`Value::from_str`), or
/// `None` when `text` is not a JSON document.
pub uninterp spec fn json_from_text(text: Seq<char>) -> Option<Json>;

/// Parses a JSON document with `serde_json`.
#[verifier::external_body]
pub(crate) fn parse_json(text: &str) -> (r: Option<JsonValue>)
    ensures
        match r {
            Some(v) => json_from_text(text@) == Some(v@),
            None => json_from_text(text@) is None,
        },
{
    text.parse::<serde_json::Value>().ok().map(|v| JsonValue::from_serde(&v))
}

/// The `Debug` rendering of a `serde_json::Value` holding `v`.
pub uninterp spec fn json_debug_text(v: Json) -> Seq<char>;

/// Renders a value as `serde_json::Value`'s `Debug` implementation does.
#[verifier::external_body]
pub(crate) fn debug_text(v: &JsonValue) -> (r: String)
    ensures
        r@ == json_debug_text(v@),
{
    format!("{:?}", v.to_serde())
}

} // verus!
