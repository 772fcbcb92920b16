use vstd::prelude::*;
use crate::text::same_text;

verus! {

/// A parsed JSON document. Numbers are kept when they are integers that fit an `i64`.
#[derive(Debug)]
pub enum Json {
    Null,
    Bool(bool),
    Number(i64),
    Str(String),
    Array(Vec<Json>),
    Object(Vec<JsonEntry>),
}

/// One member of a JSON object.
#[derive(Debug)]
pub struct JsonEntry {
    pub key: String,
    pub value: Json,
}

/// The index of the first entry at or after `i` whose key is `key`.
pub open spec fn key_index_from(es: Seq<JsonEntry>, key: Seq<char>, i: int) -> Option<int>
    decreases es.len() - i,
{
    if i < 0 || i >= es.len() {
        None
    } else if es[i].key@ == key {
        Some(i)
    } else {
        key_index_from(es, key, i + 1)
    }
}

/// The value of the first member named `key`, when `j` is an object that has one.
pub open spec fn member(j: Json, key: Seq<char>) -> Option<Json> {
    match j {
        Json::Object(es) => match key_index_from(es@, key, 0) {
            Some(i) => Some(es@[i].value),
            None => None,
        },
        _ => None,
    }
}

/// The value reached from `j` by following the member names of `path` in turn.
pub open spec fn at_path(j: Json, path: Seq<Seq<char>>) -> Option<Json>
    decreases path.len(),
{
    if path.len() == 0 {
        Some(j)
    } else {
        match member(j, path[0]) {
            Some(c) => at_path(c, path.drop_first()),
            None => None,
        }
    }
}

/// The characters of each name of a path.
pub open spec fn path_view(keys: Seq<&str>) -> Seq<Seq<char>> {
    keys.map_values(|k: &str| k@)
}

/// The text that `j` holds, when it is a string.
pub open spec fn str_of(j: Option<Json>) -> Option<Seq<char>> {
    match j {
        Some(Json::Str(s)) => Some(s@),
        _ => None,
    }
}

/// The truth value that `j` holds, when it is a boolean.
pub open spec fn bool_of(j: Option<Json>) -> Option<bool> {
    match j {
        Some(Json::Bool(b)) => Some(b),
        _ => None,
    }
}

/// The integer that `j` holds, when it is a number.
pub open spec fn int_of(j: Option<Json>) -> Option<i64> {
    match j {
        Some(Json::Number(n)) => Some(n),
        _ => None,
    }
}

impl Json {
    /// The value of the first member named `key`, when this is an object that has one.
    pub fn get(&self, key: &str) -> (r: Option<&Json>)
        ensures
            match r {
                Some(v) => member(*self, key@) == Some(*v),
                None => member(*self, key@) is None,
            },
    {
        match self {
            Json::Object(es) => {
                let mut i: usize = 0;
                while i < es.len()
                    invariant
                        *self == Json::Object(*es),
                        i <= es@.len(),
                        key_index_from(es@, key@, 0) == key_index_from(es@, key@, i as int),
                    decreases es@.len() - i,
                {
                    if same_text(es[i].key.as_str(), key) {
                        return Some(&es[i].value);
                    }
                    i = i + 1;
                }
                None
            },
            _ => None,
        }
    }

    /// The value reached by following the member names of `keys` in turn.
    pub fn get_path(&self, keys: &[&str]) -> (r: Option<&Json>)
        ensures
            match r {
                Some(v) => at_path(*self, path_view(keys@)) == Some(*v),
                None => at_path(*self, path_view(keys@)) is None,
            },
    {
        let mut cur = self;
        let mut i: usize = 0;
        assert(path_view(keys@).skip(0) =~= path_view(keys@));
        while i < keys.len()
            invariant
                i <= keys@.len(),
                at_path(*self, path_view(keys@)) == at_path(*cur, path_view(keys@).skip(i as int)),
            decreases keys@.len() - i,
        {
            let ghost rest = path_view(keys@).skip(i as int);
            assert(rest.drop_first() =~= path_view(keys@).skip(i + 1));
            match cur.get(keys[i]) {
                Some(next) => {
                    cur = next;
                },
                None => {
                    return None;
                },
            }
            i = i + 1;
        }
        assert(path_view(keys@).skip(i as int) =~= Seq::<Seq<char>>::empty());
        Some(cur)
    }

    /// The text this holds, when it is a string.
    pub fn as_str(&self) -> (r: Option<&String>)
        ensures
            match r {
                Some(s) => str_of(Some(*self)) == Some(s@),
                None => str_of(Some(*self)) is None,
            },
    {
        match self {
            Json::Str(s) => Some(s),
            _ => None,
        }
    }

    /// The truth value this holds, when it is a boolean.
    pub fn as_bool(&self) -> (r: Option<bool>)
        ensures
            r == bool_of(Some(*self)),
    {
        match self {
            Json::Bool(b) => Some(*b),
            _ => None,
        }
    }

    /// The integer this holds, when it is a number.
    pub fn as_i64(&self) -> (r: Option<i64>)
        ensures
            r == int_of(Some(*self)),
    {
        match self {
            Json::Number(n) => Some(*n),
            _ => None,
        }
    }

    /// The elements this holds, when it is an array.
    pub fn as_array(&self) -> (r: Option<&Vec<Json>>)
        ensures
            match r {
                Some(v) => *self == Json::Array(*v),
                None => !(*self is Array),
            },
    {
        match self {
            Json::Array(v) => Some(v),
            _ => None,
        }
    }
}

/// Whether the string at `path` under `j` is exactly `text`.
pub fn str_at_is(j: &Json, path: &[&str], text: &str) -> (r: bool)
    ensures
        r == (str_of(at_path(*j, path_view(path@))) == Some(text@)),
{
    match j.get_path(path) {
        Some(v) => match v.as_str() {
            Some(s) => same_text(s.as_str(), text),
            None => false,
        },
        None => false,
    }
}

#[verifier::external_type_specification]
#[verifier::external_body]
pub struct ExJsonValue(serde_json::Value);

/// One level of a document as serde_json parsed it; the children keep serde_json's form.
pub enum JsonNode {
    Null,
    Bool(bool),
    Number(Option<i64>),
    Str(String),
    Array(Vec<serde_json::Value>),
    Object(Vec<(String, serde_json::Value)>),
}

/// The text is one JSON document, as serde_json reads it.
pub uninterp spec fn is_json_text(text: Seq<char>) -> bool;

/// Relies on `serde_json::from_str`: the document that the text holds, or `None`
/// when the text is not JSON.
#[verifier::external_body]
fn parse_value(text: &str) -> (r: Option<serde_json::Value>)
    ensures
        r is Some <==> is_json_text(text@),
{
    serde_json::from_str(text).ok()
}

/// Relies on the variants of `serde_json::Value`, and on `Number::as_i64` for the
/// integers that fit an `i64`: the top level of a document, moved out.
#[verifier::external_body]
fn node_of(v: serde_json::Value) -> (r: JsonNode) {
    match v {
        serde_json::Value::Null => JsonNode::Null,
        serde_json::Value::Bool(b) => JsonNode::Bool(b),
        serde_json::Value::Number(n) => JsonNode::Number(n.as_i64()),
        serde_json::Value::String(s) => JsonNode::Str(s),
        serde_json::Value::Array(a) => JsonNode::Array(a),
        serde_json::Value::Object(m) => JsonNode::Object(m.into_iter().collect()),
    }
}

/// How deep a document is converted; serde_json refuses documents nested deeper
/// than 128 levels, so nothing it returns reaches this.
pub const MAX_DEPTH: u32 = 256;

fn convert(v: serde_json::Value, depth: u32) -> (r: Json)
    decreases depth,
{
    if depth == 0 {
        return Json::Null;
    }
    let next = depth - 1;
    match node_of(v) {
        JsonNode::Null => Json::Null,
        JsonNode::Bool(b) => Json::Bool(b),
        JsonNode::Number(Some(n)) => Json::Number(n),
        JsonNode::Number(None) => Json::Null,
        JsonNode::Str(s) => Json::Str(s),
        JsonNode::Array(items) => {
            let mut items = items;
            let mut out: Vec<Json> = Vec::new();
            while items.len() > 0
                invariant
                    next < depth,
                decreases items@.len(),
            {
                let x = items.remove(0);
                out.push(convert(x, next));
            }
            Json::Array(out)
        },
        JsonNode::Object(members) => {
            let mut members = members;
            let mut out: Vec<JsonEntry> = Vec::new();
            while members.len() > 0
                invariant
                    next < depth,
                decreases members@.len(),
            {
                let (key, x) = members.remove(0);
                out.push(JsonEntry { key, value: convert(x, next) });
            }
            Json::Object(out)
        },
    }
}

/// Parses JSON text into a document; `None` when the text is not JSON. Numbers
/// other than integers that fit an `i64` become `Null`.
pub fn parse_json(text: &str) -> (r: Option<Json>)
    ensures
        r is Some <==> is_json_text(text@),
{
    match parse_value(text) {
        Some(v) => Some(convert(v, MAX_DEPTH)),
        None => None,
    }
}

} // verus!
