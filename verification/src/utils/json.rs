use vstd::prelude::*;
use crate::utils::text::str_eq;

verus! {

/// `serde_json::Number`, carried through unread.
#[verifier::external_type_specification]
#[verifier::external_body]
pub struct ExJsonNumber(serde_json::Number);

/// `serde_json::Error`, the error a failed parse reports.
#[verifier::external_type_specification]
#[verifier::external_body]
pub struct ExJsonError(serde_json::Error);

/// `serde_json::Value`, the parser's own tree, converted at once into [`JsonValue`].
#[verifier::external_type_specification]
#[verifier::external_body]
pub struct ExSerdeJsonValue(serde_json::Value);

/// A parsed JSON document. Objects keep their members in the order the parser
/// hands them out; their keys are distinct.
pub enum JsonValue {
    Null,
    Bool(bool),
    Number(serde_json::Number),
    Str(String),
    Array(Vec<JsonValue>),
    Object(Vec<(String, JsonValue)>),
}

/// The mathematical model of a JSON document.
pub enum JsonView {
    Null,
    Bool(bool),
    Number,
    Str(Seq<char>),
    Array(Seq<JsonView>),
    Object(Seq<(Seq<char>, JsonView)>),
}

impl JsonValue {
    /// The model of a JSON node and of everything under it.
    pub open spec fn view_rec(self) -> JsonView
        decreases self,
    {
        match self {
            JsonValue::Null => JsonView::Null,
            JsonValue::Bool(b) => JsonView::Bool(b),
            JsonValue::Number(_) => JsonView::Number,
            JsonValue::Str(s) => JsonView::Str(s@),
            JsonValue::Array(a) => JsonView::Array(
                Seq::new(a@.len(), |i: int| if 0 <= i < a@.len() { a@[i].view_rec() } else { JsonView::Null }),
            ),
            JsonValue::Object(m) => JsonView::Object(
                Seq::new(m@.len(), |i: int| if 0 <= i < m@.len() { (m@[i].0@, m@[i].1.view_rec()) } else { (Seq::empty(), JsonView::Null) }),
            ),
        }
    }
}

impl View for JsonValue {
    type V = JsonView;

    open spec fn view(&self) -> JsonView {
        self.view_rec()
    }
}

/// The member `key` of an object (the first one, keys being distinct); `None` for
/// anything that is not an object or has no such member. This is `Value::get`
/// with a string key.
pub open spec fn json_get(v: JsonView, key: Seq<char>) -> Option<JsonView> {
    match v {
        JsonView::Object(m) => {
            if exists|i: int| 0 <= i < m.len() && m[i].0 == key {
                let i = choose|i: int| 0 <= i < m.len() && m[i].0 == key && forall|j: int| 0 <= j < i ==> m[j].0 != key;
                Some(m[i].1)
            } else {
                None
            }
        },
        _ => None,
    }
}

/// The text of a JSON string; `None` for anything else (`Value::as_str`).
pub open spec fn json_as_str(v: Option<JsonView>) -> Option<Seq<char>> {
    match v {
        Some(JsonView::Str(s)) => Some(s),
        _ => None,
    }
}

/// The items of a JSON array; `None` for anything else (`Value::as_array`).
pub open spec fn json_as_array(v: Option<JsonView>) -> Option<Seq<JsonView>> {
    match v {
        Some(JsonView::Array(a)) => Some(a),
        _ => None,
    }
}

/// What `serde_json::from_str::<serde_json::Value>` makes of a text, as a function
/// of the text alone: `None` where it reports an error.
pub uninterp spec fn json_parse(text: Seq<char>) -> Option<JsonView>;

/// Converts the parser's tree into the library's, node for node.
#[verifier::external_body]
fn json_from_serde(v: serde_json::Value) -> JsonValue {
    match v {
        serde_json::Value::Null => JsonValue::Null,
        serde_json::Value::Bool(b) => JsonValue::Bool(b),
        serde_json::Value::Number(n) => JsonValue::Number(n),
        serde_json::Value::String(s) => JsonValue::Str(s),
        serde_json::Value::Array(a) => JsonValue::Array(a.into_iter().map(json_from_serde).collect()),
        serde_json::Value::Object(m) => JsonValue::Object(
            m.into_iter().map(|(k, x)| (k, json_from_serde(x))).collect(),
        ),
    }
}

/// Parses `text` with `serde_json::from_str` into a JSON tree. Trusted: the result
/// is `Ok` exactly where the parser accepts the text, and its view is the named
/// result [`json_parse`] of the text; the JSON grammar itself is not restated.
#[verifier::external_body]
pub(crate) fn parse_json(text: &str) -> (r: Result<JsonValue, serde_json::Error>)
    ensures
        r is Ok <==> json_parse(text@) is Some,
        r matches Ok(v) ==> json_parse(text@) == Some(v@),
{
    serde_json::from_str::<serde_json::Value>(text).map(json_from_serde)
}

impl JsonValue {
    /// `Value::get` with a string key.
    pub fn get(&self, key: &str) -> (r: Option<&JsonValue>)
        ensures
            match r {
                Some(x) => json_get(self@, key@) == Some(x@),
                None => json_get(self@, key@) is None,
            },
    {
        match self {
            JsonValue::Object(m) => {
                assert(self@ is Object);
                let ghost mv = self@->Object_0;
                let mut i: usize = 0;
                while i < m.len()
                    invariant
                        i <= m@.len(),
                        mv.len() == m@.len(),
                        self@ == JsonView::Object(mv),
                        forall|k: int| 0 <= k < m@.len() ==> #[trigger] mv[k] == (m@[k].0@, m@[k].1@),
                        forall|j: int| 0 <= j < i ==> mv[j].0 != key@,
                    decreases m.len() - i,
                {
                    if str_eq(m[i].0.as_str(), key) {
                        assert(mv[i as int] == (m@[i as int].0@, m@[i as int].1@));
                        assert(0 <= i < mv.len() && mv[i as int].0 == key@ && forall|j: int| 0 <= j < i ==> mv[j].0 != key@);
                        let ghost c = choose|c: int| 0 <= c < mv.len() && mv[c].0 == key@ && forall|j: int| 0 <= j < c ==> mv[j].0 != key@;
                        assert(c == i) by {
                            if c < i { assert(mv[c].0 != key@); }
                            if c > i { assert(mv[i as int].0 != key@); }
                        }
                        assert(json_get(self@, key@) == Some(m@[i as int].1@));
                        return Some(&m[i].1);
                    }
                    i += 1;
                }
                None
            },
            _ => None,
        }
    }

    /// `Value::as_str`.
    pub fn as_str(&self) -> (r: Option<&str>)
        ensures
            match r {
                Some(s) => json_as_str(Some(self@)) == Some(s@),
                None => json_as_str(Some(self@)) is None,
            },
    {
        match self {
            JsonValue::Str(s) => Some(s.as_str()),
            _ => None,
        }
    }

    /// `Value::as_array`.
    pub fn as_array(&self) -> (r: Option<&Vec<JsonValue>>)
        ensures
            match r {
                Some(a) => json_as_array(Some(self@)) == Some(a@.map_values(|x: JsonValue| x@)),
                None => json_as_array(Some(self@)) is None,
            },
    {
        match self {
            JsonValue::Array(a) => {
                assert(self@->Array_0 =~= a@.map_values(|x: JsonValue| x@));
                Some(a)
            },
            _ => None,
        }
    }
}

} // verus!
