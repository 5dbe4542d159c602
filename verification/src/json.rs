//! An owned model of JSON values.
//!
//! All routing and projection logic in this crate reads and builds JSON
//! trees; this module gives those trees a concrete executable form
//! (`JsonValue`) together with a mathematical one (`SpecJson`) that the
//! contracts speak of. Numbers are kept exactly: integers in an `i64` or a
//! `u64`, and any other number as its decimal rendering, which this crate
//! only ever carries through unchanged.

use vstd::prelude::*;

verus! {

broadcast use vstd::std_specs::vec::group_vec_axioms;

/// Mathematical model of a JSON value.
#[verifier::ext_equal]
pub enum SpecJson {
    Null,
    Bool(bool),
    Int(i64),
    UInt(u64),
    Float(Seq<char>),
    Str(Seq<char>),
    Arr(Seq<SpecJson>),
    Obj(Seq<(Seq<char>, SpecJson)>),
}

/// Executable JSON value.
#[derive(Debug, PartialEq)]
pub enum JsonValue {
    Null,
    Bool(bool),
    /// An integer that fits in `i64`.
    Int(i64),
    /// An integer above `i64::MAX`.
    UInt(u64),
    /// A non-integer number, carried as its decimal rendering.
    Float(String),
    Str(String),
    Arr(Vec<JsonValue>),
    Obj(Vec<(String, JsonValue)>),
}

/// View of a sequence of JSON values, element by element.
pub open spec fn json_seq_view(s: Seq<JsonValue>) -> Seq<SpecJson>
    decreases s,
{
    if s.len() == 0 {
        Seq::empty()
    } else {
        json_seq_view(s.subrange(0, s.len() - 1)).push(s[s.len() - 1]@)
    }
}

/// View of an object's fields, element by element.
pub open spec fn json_fields_view(s: Seq<(String, JsonValue)>) -> Seq<(Seq<char>, SpecJson)>
    decreases s,
{
    if s.len() == 0 {
        Seq::empty()
    } else {
        json_fields_view(s.subrange(0, s.len() - 1)).push(
            (s[s.len() - 1].0@, s[s.len() - 1].1@),
        )
    }
}

impl View for JsonValue {
    type V = SpecJson;

    open spec fn view(&self) -> SpecJson
        decreases self,
    {
        match self {
            JsonValue::Null => SpecJson::Null,
            JsonValue::Bool(b) => SpecJson::Bool(*b),
            JsonValue::Int(i) => SpecJson::Int(*i),
            JsonValue::UInt(u) => SpecJson::UInt(*u),
            JsonValue::Float(s) => SpecJson::Float(s@),
            JsonValue::Str(s) => SpecJson::Str(s@),
            JsonValue::Arr(items) => SpecJson::Arr(json_seq_view(items@)),
            JsonValue::Obj(fields) => SpecJson::Obj(json_fields_view(fields@)),
        }
    }
}

/// `json_seq_view` is the pointwise view.
pub proof fn lemma_json_seq_view(s: Seq<JsonValue>)
    ensures
        json_seq_view(s).len() == s.len(),
        forall|i: int| 0 <= i < s.len() ==> json_seq_view(s)[i] == s[i]@,
    decreases s.len(),
{
    if s.len() > 0 {
        let prefix = s.subrange(0, s.len() - 1);
        lemma_json_seq_view(prefix);
        assert(json_seq_view(s) == json_seq_view(prefix).push(s[s.len() - 1]@));
        assert forall|i: int| 0 <= i < s.len() implies json_seq_view(s)[i] == s[i]@ by {
            if i < s.len() - 1 {
                assert(prefix[i] == s[i]);
                assert(json_seq_view(s)[i] == json_seq_view(prefix)[i]);
            }
        }
    }
}

/// `json_fields_view` is the pointwise view.
pub proof fn lemma_json_fields_view(s: Seq<(String, JsonValue)>)
    ensures
        json_fields_view(s).len() == s.len(),
        forall|i: int| 0 <= i < s.len() ==> json_fields_view(s)[i] == (s[i].0@, s[i].1@),
    decreases s.len(),
{
    if s.len() > 0 {
        let prefix = s.subrange(0, s.len() - 1);
        lemma_json_fields_view(prefix);
        assert(json_fields_view(s) == json_fields_view(prefix).push(
            (s[s.len() - 1].0@, s[s.len() - 1].1@),
        ));
        assert forall|i: int| 0 <= i < s.len() implies json_fields_view(s)[i] == (
            s[i].0@,
            s[i].1@,
        ) by {
            if i < s.len() - 1 {
                assert(prefix[i] == s[i]);
                assert(json_fields_view(s)[i] == json_fields_view(prefix)[i]);
            }
        }
    }
}

impl SpecJson {
    /// First field of an object with the given key, if any.
    pub open spec fn get(self, key: Seq<char>) -> Option<SpecJson> {
        match self {
            SpecJson::Obj(fields) => spec_fields_get(fields, key),
            _ => None,
        }
    }

    pub open spec fn as_str(self) -> Option<Seq<char>> {
        match self {
            SpecJson::Str(s) => Some(s),
            _ => None,
        }
    }

    pub open spec fn as_bool(self) -> Option<bool> {
        match self {
            SpecJson::Bool(b) => Some(b),
            _ => None,
        }
    }

    pub open spec fn as_arr(self) -> Option<Seq<SpecJson>> {
        match self {
            SpecJson::Arr(items) => Some(items),
            _ => None,
        }
    }

    pub open spec fn is_obj(self) -> bool {
        self is Obj
    }
}

/// First match, scanning fields front to back.
pub open spec fn spec_fields_get(fields: Seq<(Seq<char>, SpecJson)>, key: Seq<char>) -> Option<
    SpecJson,
>
    decreases fields.len(),
{
    if fields.len() == 0 {
        None
    } else if fields[0].0 == key {
        Some(fields[0].1)
    } else {
        spec_fields_get(fields.drop_first(), key)
    }
}

proof fn lemma_fields_get_step(fields: Seq<(Seq<char>, SpecJson)>, key: Seq<char>, i: int)
    requires
        0 <= i <= fields.len(),
        forall|j: int| 0 <= j < i ==> fields[j].0 != key,
    ensures
        spec_fields_get(fields, key) == spec_fields_get(fields.skip(i), key),
    decreases i,
{
    if i > 0 {
        lemma_fields_get_step(fields.drop_first(), key, i - 1);
        assert(fields.drop_first().skip(i - 1) =~= fields.skip(i));
        assert(spec_fields_get(fields, key) == spec_fields_get(fields.drop_first(), key));
    } else {
        assert(fields.skip(0) =~= fields);
    }
}

/// Relies on `str` equality: true exactly when the two strings hold the
/// same characters.
#[verifier::external_body]
pub fn str_eq(a: &str, b: &str) -> (r: bool)
    ensures
        r == (a@ == b@),
{
    a == b
}

impl JsonValue {
    /// Looks a key up in an object; `None` on any other value.
    #[verifier::loop_isolation(false)]
    pub fn get<'a>(&'a self, key: &str) -> (r: Option<&'a JsonValue>)
        ensures
            match r {
                Some(field) => self@.get(key@) == Some(field@),
                None => self@.get(key@) is None,
            },
    {
        match self {
            JsonValue::Obj(fields) => {
                proof {
                    lemma_json_fields_view(fields@);
                }
                let ghost view_fields = json_fields_view(fields@);
                let mut i: usize = 0;
                while i < fields.len()
                    invariant
                        0 <= i <= fields.len(),
                        view_fields == json_fields_view(fields@),
                        view_fields.len() == fields@.len(),
                        forall|j: int| 0 <= j < fields@.len() ==> view_fields[j] == (
                        fields@[j].0@,
                        fields@[j].1@,
                        ),
                        forall|j: int| 0 <= j < i ==> view_fields[j].0 != key@,
                    decreases fields.len() - i,
                {
                    if str_eq(fields[i].0.as_str(), key) {
                        proof {
                            lemma_fields_get_step(view_fields, key@, i as int);
                            assert(view_fields.skip(i as int)[0] == view_fields[i as int]);
                        }
                        return Some(&fields[i].1);
                    }
                    i += 1;
                }
                proof {
                    lemma_fields_get_step(view_fields, key@, fields@.len() as int);
                    assert(view_fields.skip(fields@.len() as int).len() == 0);
                }
                None
            },
            _ => None,
        }
    }

    pub fn as_str(&self) -> (r: Option<&String>)
        ensures
            match r {
                Some(s) => self@.as_str() == Some(s@),
                None => self@.as_str() is None,
            },
    {
        match self {
            JsonValue::Str(s) => Some(s),
            _ => None,
        }
    }

    pub fn as_bool(&self) -> (r: Option<bool>)
        ensures
            match r {
                Some(b) => self@.as_bool() == Some(b),
                None => self@.as_bool() is None,
            },
    {
        match self {
            JsonValue::Bool(b) => Some(*b),
            _ => None,
        }
    }

    pub fn as_arr(&self) -> (r: Option<&Vec<JsonValue>>)
        ensures
            match r {
                Some(items) => self@.as_arr() == Some(json_seq_view(items@)),
                None => self@.as_arr() is None,
            },
    {
        match self {
            JsonValue::Arr(items) => Some(items),
            _ => None,
        }
    }

    pub fn is_obj(&self) -> (r: bool)
        ensures
            r == self@.is_obj(),
    {
        match self {
            JsonValue::Obj(_) => true,
            _ => false,
        }
    }
}

/// Structure-preserving copy.
#[verifier::loop_isolation(false)]
pub fn clone_json(v: &JsonValue) -> (r: JsonValue)
    ensures
        r@ == v@,
    decreases v,
{
    match v {
        JsonValue::Null => JsonValue::Null,
        JsonValue::Bool(b) => JsonValue::Bool(*b),
        JsonValue::Int(i) => JsonValue::Int(*i),
        JsonValue::UInt(u) => JsonValue::UInt(*u),
        JsonValue::Float(s) => JsonValue::Float(s.clone()),
        JsonValue::Str(s) => JsonValue::Str(s.clone()),
        JsonValue::Arr(items) => {
            let mut out: Vec<JsonValue> = Vec::new();
            let mut i: usize = 0;
            while i < items.len()
                invariant
                    0 <= i <= items.len(),
                    out@.len() == i,
                    forall|j: int| 0 <= j < i ==> #[trigger] out@[j]@ == items@[j]@,
                decreases items.len() - i,
            {
                out.push(clone_json(&items[i]));
                i += 1;
            }
            proof {
                lemma_json_seq_view(out@);
                lemma_json_seq_view(items@);
                assert(json_seq_view(out@) =~= json_seq_view(items@));
            }
            JsonValue::Arr(out)
        },
        JsonValue::Obj(fields) => {
            let mut out: Vec<(String, JsonValue)> = Vec::new();
            let mut i: usize = 0;
            while i < fields.len()
                invariant
                    0 <= i <= fields.len(),
                    out@.len() == i,
                    forall|j: int| 0 <= j < i ==> #[trigger] out@[j].0@ == fields@[j].0@
                        && out@[j].1@ == fields@[j].1@,
                decreases fields.len() - i,
            {
                let key = fields[i].0.clone();
                let value = clone_json(&fields[i].1);
                out.push((key, value));
                i += 1;
            }
            proof {
                lemma_json_fields_view(out@);
                lemma_json_fields_view(fields@);
                assert(json_fields_view(out@) =~= json_fields_view(fields@));
            }
            JsonValue::Obj(out)
        },
    }
}

impl Clone for JsonValue {
    fn clone(&self) -> (r: JsonValue)
        ensures
            r@ == self@,
    {
        clone_json(self)
    }
}

/// Declares serde_json's value type so that the conversion below may take
/// it as an argument; nothing in this crate looks inside such a value.
#[verifier::external_type_specification]
#[verifier::external_body]
pub struct ExSerdeValue(serde_json::Value);

/// Names the JSON tree that serde_json reads from a text, if the text is
/// well-formed JSON.
pub uninterp spec fn spec_parse_json(s: Seq<char>) -> Option<SpecJson>;

/// Relies on `serde_json::from_str`: whether a text parses, and to which
/// tree, depends on the text alone.
#[verifier::external_body]
pub fn parse_json(text: &str) -> (r: Option<JsonValue>)
    ensures
        match r {
            Some(v) => spec_parse_json(text@) == Some(v@),
            None => spec_parse_json(text@) is None,
        },
{
    serde_json::from_str::<serde_json::Value>(text).ok().map(json_value_of_serde)
}

/// Rebuilds a tree that serde_json parsed as this crate's own JSON value,
/// node for node.
#[verifier::external_body]
fn json_value_of_serde(v: serde_json::Value) -> JsonValue {
    match v {
        serde_json::Value::Null => JsonValue::Null,
        serde_json::Value::Bool(b) => JsonValue::Bool(b),
        serde_json::Value::Number(n) => match (n.as_i64(), n.as_u64()) {
            (Some(i), _) => JsonValue::Int(i),
            (None, Some(u)) => JsonValue::UInt(u),
            (None, None) => JsonValue::Float(n.to_string()),
        },
        serde_json::Value::String(s) => JsonValue::Str(s),
        serde_json::Value::Array(a) => JsonValue::Arr(a.into_iter().map(json_value_of_serde).collect()),
        serde_json::Value::Object(o) => JsonValue::Obj(o.into_iter().map(|(k, x)| (k, json_value_of_serde(x))).collect()),
    }
}

/// Wraps collected fields as a JSON object, exposing the view of each.
pub fn obj_from_fields(fields: Vec<(String, JsonValue)>) -> (r: JsonValue)
    ensures
        r@ matches SpecJson::Obj(fs) && fs.len() == fields@.len() && (forall|i: int|
            0 <= i < fields@.len() ==> fs[i] == (fields@[i].0@, fields@[i].1@)),
{
    proof {
        lemma_json_fields_view(fields@);
    }
    JsonValue::Obj(fields)
}

/// Wraps collected items as a JSON array, exposing the view of each.
pub fn arr_from_items(items: Vec<JsonValue>) -> (r: JsonValue)
    ensures
        r@ matches SpecJson::Arr(vs) && vs.len() == items@.len() && (forall|i: int|
            0 <= i < items@.len() ==> vs[i] == items@[i]@),
{
    proof {
        lemma_json_seq_view(items@);
    }
    JsonValue::Arr(items)
}

/// A one-field JSON object.
pub fn obj1(k1: &str, v1: JsonValue) -> (r: JsonValue)
    ensures
        r@ == SpecJson::Obj(seq![(k1@, v1@)]),
{
    let mut fields: Vec<(String, JsonValue)> = Vec::new();
    fields.push((k1.to_owned(), v1));
    let r = obj_from_fields(fields);
    proof {
        assert(r@->Obj_0 =~= seq![(k1@, v1@)]);
    }
    r
}

/// A two-field JSON object, fields in the given order.
pub fn obj2(k1: &str, v1: JsonValue, k2: &str, v2: JsonValue) -> (r: JsonValue)
    ensures
        r@ == SpecJson::Obj(seq![(k1@, v1@), (k2@, v2@)]),
{
    let mut fields: Vec<(String, JsonValue)> = Vec::new();
    fields.push((k1.to_owned(), v1));
    fields.push((k2.to_owned(), v2));
    let r = obj_from_fields(fields);
    proof {
        assert(r@->Obj_0 =~= seq![(k1@, v1@), (k2@, v2@)]);
    }
    r
}

/// A three-field JSON object, fields in the given order.
pub fn obj3(k1: &str, v1: JsonValue, k2: &str, v2: JsonValue, k3: &str, v3: JsonValue) -> (r:
    JsonValue)
    ensures
        r@ == SpecJson::Obj(seq![(k1@, v1@), (k2@, v2@), (k3@, v3@)]),
{
    let mut fields: Vec<(String, JsonValue)> = Vec::new();
    fields.push((k1.to_owned(), v1));
    fields.push((k2.to_owned(), v2));
    fields.push((k3.to_owned(), v3));
    let r = obj_from_fields(fields);
    proof {
        assert(r@->Obj_0 =~= seq![(k1@, v1@), (k2@, v2@), (k3@, v3@)]);
    }
    r
}

/// A four-field JSON object, fields in the given order.
pub fn obj4(
    k1: &str,
    v1: JsonValue,
    k2: &str,
    v2: JsonValue,
    k3: &str,
    v3: JsonValue,
    k4: &str,
    v4: JsonValue,
) -> (r: JsonValue)
    ensures
        r@ == SpecJson::Obj(seq![(k1@, v1@), (k2@, v2@), (k3@, v3@), (k4@, v4@)]),
{
    let mut fields: Vec<(String, JsonValue)> = Vec::new();
    fields.push((k1.to_owned(), v1));
    fields.push((k2.to_owned(), v2));
    fields.push((k3.to_owned(), v3));
    fields.push((k4.to_owned(), v4));
    let r = obj_from_fields(fields);
    proof {
        assert(r@->Obj_0 =~= seq![(k1@, v1@), (k2@, v2@), (k3@, v3@), (k4@, v4@)]);
    }
    r
}

/// A JSON string value.
pub fn jstr(s: &str) -> (r: JsonValue)
    ensures
        r@ == SpecJson::Str(s@),
{
    JsonValue::Str(s.to_owned())
}

/// The string under an optional JSON value, if it is a string.
pub open spec fn spec_read_string(v: Option<SpecJson>) -> Option<Seq<char>> {
    match v {
        Some(SpecJson::Str(s)) => Some(s),
        _ => None,
    }
}

/// Copies a JSON string out.
pub fn read_string(v: Option<&JsonValue>) -> (r: Option<String>)
    ensures
        match r {
            Some(s) => spec_read_string(spec_of_opt_value(v)) == Some(s@),
            None => spec_read_string(spec_of_opt_value(v)) is None,
        },
{
    match v {
        Some(JsonValue::Str(s)) => Some(s.clone()),
        _ => None,
    }
}

/// The model of an optional borrowed JSON value.
pub open spec fn spec_of_opt_value(v: Option<&JsonValue>) -> Option<SpecJson> {
    match v {
        Some(value) => Some(value@),
        None => None,
    }
}

/// The boolean under an optional JSON value, if it is one.
pub open spec fn spec_read_bool(v: Option<SpecJson>) -> Option<bool> {
    match v {
        Some(SpecJson::Bool(b)) => Some(b),
        _ => None,
    }
}

/// Reads a JSON boolean.
pub fn read_bool(v: Option<&JsonValue>) -> (r: Option<bool>)
    ensures
        r == spec_read_bool(spec_of_opt_value(v)),
{
    match v {
        Some(JsonValue::Bool(b)) => Some(*b),
        _ => None,
    }
}

impl JsonValue {
    pub fn as_obj(&self) -> (r: Option<&Vec<(String, JsonValue)>>)
        ensures
            match r {
                Some(fields) => self@ == SpecJson::Obj(json_fields_view(fields@)),
                None => !self@.is_obj(),
            },
    {
        match self {
            JsonValue::Obj(fields) => Some(fields),
            _ => None,
        }
    }
}

} // verus!
