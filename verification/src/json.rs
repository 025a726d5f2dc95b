//! The JSON trees that the remote API's responses parse into, and the
//! trusted boundary to the outside parser that produces them.

use vstd::prelude::*;

verus! {

/// A parsed JSON document, as the token and listing endpoints return one.
/// A number keeps its raw decimal text: no field this pipeline reads is a
/// number, and the source may send fractions that no integer type holds.
#[verifier::ext_equal]
pub enum Json {
    Null,
    Bool(bool),
    Num(String),
    Str(String),
    Arr(Vec<Json>),
    Obj(Vec<(String, Json)>),
}

/// The value of the first field named `key`, if any.
pub open spec fn spec_fields_get(fields: Seq<(String, Json)>, key: Seq<char>) -> Option<Json>
    decreases fields.len(),
{
    if fields.len() == 0 {
        None::<Json>
    } else if fields[0].0@ == key {
        Some(fields[0].1)
    } else {
        spec_fields_get(fields.drop_first(), key)
    }
}

/// The value of field `key` when `v` is an object holding one, if any.
pub open spec fn spec_get(v: Json, key: Seq<char>) -> Option<Json> {
    match v {
        Json::Obj(fields) => spec_fields_get(fields@, key),
        _ => None,
    }
}

/// Looks up field `key` of `v`; `None` when `v` is not an object or holds no
/// such field.
pub fn json_get<'a>(v: &'a Json, key: &str) -> (r: Option<&'a Json>)
    ensures
        match r {
            Some(j) => spec_get(*v, key@) == Some(*j),
            None => spec_get(*v, key@) is None,
        },
{
    match v {
        Json::Obj(fields) => {
            let n = fields.len();
            let mut i: usize = 0;
            proof {
                assert(fields@.skip(0) =~= fields@);
            }
            while i < n
                invariant
                    v is Obj && v->Obj_0 == *fields,
                    n == fields@.len(),
                    0 <= i <= n,
                    spec_fields_get(fields@, key@) == spec_fields_get(
                        fields@.skip(i as int),
                        key@,
                    ),
                decreases n - i,
            {
                proof {
                    assert(fields@.skip(i as int)[0] == fields@[i as int]);
                }
                if crate::str_eq(fields[i].0.as_str(), key) {
                    proof {
                        assert(*v =~= Json::Obj(*fields));
                        assert(spec_get(*v, key@) == spec_fields_get(fields@, key@));
                        assert(fields@.skip(i as int).len() > 0);
                        assert(spec_fields_get(fields@.skip(i as int), key@) == Some(
                            fields@[i as int].1,
                        ));
                    }
                    return Some(&fields[i].1);
                }
                proof {
                    assert(fields@.skip(i as int).drop_first() =~= fields@.skip(i as int + 1));
                }
                i += 1;
            }
            proof {
                assert(fields@.skip(n as int) =~= Seq::<(String, Json)>::empty());
            }
            None
        },
        _ => None,
    }
}

#[verifier::external_type_specification]
#[verifier::external_body]
pub struct ExValue(serde_json::Value);

/// What `serde_json::from_str::<serde_json::Value>` yields on this text,
/// reshaped as the library's `Json` tree; `None` when the text is not valid
/// JSON. The result depends on the text alone.
pub uninterp spec fn json_of(s: Seq<char>) -> Option<Json>;

/// Relies on `serde_json::from_str::<serde_json::Value>`: parses the text as
/// a JSON document, deterministically from the characters alone, and returns
/// an error exactly when the text is not valid JSON.
#[verifier::external_body]
pub fn parse_json(s: &str) -> (r: Option<Json>)
    ensures
        r == json_of(s@),
{
    serde_json::from_str::<serde_json::Value>(s).ok().map(|v| json_from_value(&v))
}

/// Relies on the variants of `serde_json::Value`: each arm moves one
/// variant's contents over to the library's `Json` tree, a number as its
/// decimal text, an array and an object element by element in order.
#[verifier::external_body]
fn json_from_value(v: &serde_json::Value) -> Json {
    match v {
        serde_json::Value::Null => Json::Null,
        serde_json::Value::Bool(b) => Json::Bool(*b),
        serde_json::Value::Number(n) => Json::Num(n.to_string()),
        serde_json::Value::String(s) => Json::Str(s.clone()),
        serde_json::Value::Array(a) => Json::Arr(a.iter().map(json_from_value).collect()),
        serde_json::Value::Object(m) => Json::Obj(
            m.iter().map(|(k, x)| (k.clone(), json_from_value(x))).collect(),
        ),
    }
}

} // verus!
