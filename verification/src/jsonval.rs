//! The boundary to the JSON parser. Sidecar files are parsed by
//! serde_json into its generic `Value` tree. A `Value` is opaque here,
//! but what it holds is a function of the parsed text alone, so it is
//! given a mathematical model: `json_of` names the tree a text parses
//! to, `contents_of` names the tree a `Value` holds, and every trusted
//! accessor states its result against that model. The typed getters
//! below are verified on top of them, and the schema logic of this
//! library is verified on top of the getters.

use vstd::prelude::*;

verus! {

#[verifier::external_type_specification]
#[verifier::external_body]
pub struct ExValue(serde_json::Value);

/// The mathematical model of a parsed JSON value. A number is modelled
/// by what the two integer accessors yield for it (a number that is
/// neither a `u64` nor an `i64` yields neither).
pub enum Json {
    Null,
    Bool(bool),
    Num { as_u: Option<u64>, as_i: Option<i64> },
    Text(Seq<char>),
    Arr(Seq<Json>),
    Obj(Map<Seq<char>, Json>),
}

/// The tree a text parses to, `None` when the text is not valid JSON.
pub uninterp spec fn json_of(s: Seq<char>) -> Option<Json>;

/// The tree a parsed `Value` holds.
pub uninterp spec fn contents_of(v: serde_json::Value) -> Json;

/// Relies on serde_json::from_str::<Value>: parses a JSON document into
/// the generic value tree; `None` when the text is not valid JSON. The
/// result is a function of the text alone.
#[verifier::external_body]
pub fn parse_json(s: &str) -> (r: Option<serde_json::Value>)
    ensures
        r is Some <==> json_of(s@) is Some,
        r matches Some(v) ==> Some(contents_of(v)) == json_of(s@),
{
    match serde_json::from_str(s) {
        Ok(v) => Some(v),
        Err(_) => None,
    }
}

/// Relies on serde_json::Value::get with a string index: looks the key
/// up when the value is a JSON object, and finds nothing otherwise.
#[verifier::external_body]
pub fn json_get<'a>(v: &'a serde_json::Value, key: &str) -> (r: Option<&'a serde_json::Value>)
    ensures
        (match contents_of(*v) {
            Json::Obj(m) => {
                if m.dom().contains(key@) {
                    r matches Some(x) && contents_of(*x) == m[key@]
                } else {
                    r is None
                }
            },
            _ => r is None,
        }),
{
    v.get(key)
}

/// Relies on serde_json::Value::as_str: the string payload, exactly
/// when the value is a JSON string.
pub assume_specification<'a>[ serde_json::Value::as_str ](v: &'a serde_json::Value) -> (r: Option<
    &'a str,
>)
    ensures
        (match contents_of(*v) {
            Json::Text(t) => r matches Some(s) && s@ == t,
            _ => r is None,
        }),
;

/// Relies on serde_json::Value::as_bool: the payload, exactly when the
/// value is a JSON boolean.
pub assume_specification[ serde_json::Value::as_bool ](v: &serde_json::Value) -> (r: Option<bool>)
    ensures
        (match contents_of(*v) {
            Json::Bool(b) => r == Some(b),
            _ => r is None,
        }),
;

/// Relies on serde_json::Value::as_u64: the payload, exactly when the
/// value is a JSON number representable as a `u64`.
pub assume_specification[ serde_json::Value::as_u64 ](v: &serde_json::Value) -> (r: Option<u64>)
    ensures
        (match contents_of(*v) {
            Json::Num { as_u, as_i } => r == as_u,
            _ => r is None,
        }),
;

/// Relies on serde_json::Value::as_i64: the payload, exactly when the
/// value is a JSON number representable as an `i64`.
pub assume_specification[ serde_json::Value::as_i64 ](v: &serde_json::Value) -> (r: Option<i64>)
    ensures
        (match contents_of(*v) {
            Json::Num { as_u, as_i } => r == as_i,
            _ => r is None,
        }),
;

/// Relies on serde_json::Value::as_null: `Some(())` exactly when the
/// value is JSON null.
pub assume_specification[ serde_json::Value::as_null ](v: &serde_json::Value) -> (r: Option<()>)
    ensures
        (match contents_of(*v) {
            Json::Null => r is Some,
            _ => r is None,
        }),
;

/// Relies on serde_json::Value::as_array: the elements, exactly when
/// the value is a JSON array.
pub assume_specification<'a>[ serde_json::Value::as_array ](v: &'a serde_json::Value) -> (r:
    Option<&'a Vec<serde_json::Value>>)
    ensures
        (match contents_of(*v) {
            Json::Arr(elems) => r matches Some(a) && a@.len() == elems.len() && (forall|k: int|
                0 <= k < elems.len() ==> contents_of(#[trigger] a@[k]) == elems[k]),
            _ => r is None,
        }),
;

/// The value under `key`, if the tree is an object with that key.
pub open spec fn field_of(j: Json, key: Seq<char>) -> Option<Json> {
    match j {
        Json::Obj(m) => if m.dom().contains(key) {
            Some(m[key])
        } else {
            None
        },
        _ => None,
    }
}

/// The string under `key`, if the tree holds a string there.
pub open spec fn str_field(j: Json, key: Seq<char>) -> Option<Seq<char>> {
    match field_of(j, key) {
        Some(Json::Text(t)) => Some(t),
        _ => None,
    }
}

/// The boolean under `key`, if the tree holds a boolean there.
pub open spec fn bool_field(j: Json, key: Seq<char>) -> Option<bool> {
    match field_of(j, key) {
        Some(Json::Bool(b)) => Some(b),
        _ => None,
    }
}

/// The non-negative integer under `key`, if the tree holds one there.
pub open spec fn u64_field(j: Json, key: Seq<char>) -> Option<u64> {
    match field_of(j, key) {
        Some(Json::Num { as_u, as_i }) => as_u,
        _ => None,
    }
}

/// The integer under `key`, if the tree holds one there.
pub open spec fn i64_field(j: Json, key: Seq<char>) -> Option<i64> {
    match field_of(j, key) {
        Some(Json::Num { as_u, as_i }) => as_i,
        _ => None,
    }
}

/// The element trees under `key`, if the tree holds an array there.
pub open spec fn arr_field(j: Json, key: Seq<char>) -> Option<Seq<Json>> {
    match field_of(j, key) {
        Some(Json::Arr(a)) => Some(a),
        _ => None,
    }
}

pub open spec fn text_of(e: Json) -> Seq<char> {
    match e {
        Json::Text(t) => t,
        _ => Seq::empty(),
    }
}

pub open spec fn int_of(e: Json) -> i64 {
    match e {
        Json::Num { as_u, as_i } => match as_i {
            Some(x) => x,
            None => 0,
        },
        _ => 0,
    }
}

/// The strings under `key`, if the tree holds an array of strings
/// there.
pub open spec fn str_list_field(j: Json, key: Seq<char>) -> Option<Seq<Seq<char>>> {
    match arr_field(j, key) {
        Some(a) => if forall|k: int| 0 <= k < a.len() ==> (#[trigger] a[k]) is Text {
            Some(a.map_values(|e: Json| text_of(e)))
        } else {
            None
        },
        None => None,
    }
}

/// The integers under `key`, if the tree holds an array of integers
/// there.
pub open spec fn i64_list_field(j: Json, key: Seq<char>) -> Option<Seq<i64>> {
    match arr_field(j, key) {
        Some(a) => if forall|k: int|
            0 <= k < a.len() ==> (#[trigger] a[k]) matches Json::Num { as_u, as_i: Some(_) } {
            Some(a.map_values(|e: Json| int_of(e)))
        } else {
            None
        },
        None => None,
    }
}

/// The string under `key`, if `v` is an object holding a string there.
pub fn get_str(v: &serde_json::Value, key: &str) -> (r: Option<String>)
    ensures
        r is Some <==> str_field(contents_of(*v), key@) is Some,
        r matches Some(s) ==> Some(s@) == str_field(contents_of(*v), key@),
{
    match json_get(v, key) {
        None => None,
        Some(x) => match x.as_str() {
            None => None,
            Some(s) => Some(String::from_str(s)),
        },
    }
}

/// The boolean under `key`, if `v` is an object holding a boolean
/// there.
pub fn get_bool(v: &serde_json::Value, key: &str) -> (r: Option<bool>)
    ensures
        r == bool_field(contents_of(*v), key@),
{
    match json_get(v, key) {
        None => None,
        Some(x) => x.as_bool(),
    }
}

/// The non-negative integer under `key`.
pub fn get_u64(v: &serde_json::Value, key: &str) -> (r: Option<u64>)
    ensures
        r == u64_field(contents_of(*v), key@),
{
    match json_get(v, key) {
        None => None,
        Some(x) => x.as_u64(),
    }
}

/// The integer under `key`.
pub fn get_i64(v: &serde_json::Value, key: &str) -> (r: Option<i64>)
    ensures
        r == i64_field(contents_of(*v), key@),
{
    match json_get(v, key) {
        None => None,
        Some(x) => x.as_i64(),
    }
}

/// The list of strings under `key`, if `v` holds an array there whose
/// elements are all strings.
pub fn get_str_list(v: &serde_json::Value, key: &str) -> (r: Option<Vec<String>>)
    ensures
        r is Some <==> str_list_field(contents_of(*v), key@) is Some,
        r matches Some(xs) ==> Some(xs@.map_values(|s: String| s@)) == str_list_field(
            contents_of(*v),
            key@,
        ),
{
    let ghost elems = arr_field(contents_of(*v), key@);
    let arr = match json_get(v, key) {
        None => { return None; },
        Some(x) => match x.as_array() {
            None => { return None; },
            Some(a) => a,
        },
    };
    let ghost es = elems->Some_0;
    let mut out: Vec<String> = Vec::new();
    let n = arr.len();
    let mut i: usize = 0;
    while i < n
        invariant
            elems == arr_field(contents_of(*v), key@),
            elems matches Some(es2) && es2 == es,
            n == arr@.len(),
            n == es.len(),
            forall|k: int| 0 <= k < n ==> contents_of(#[trigger] arr@[k]) == es[k],
            i <= n,
            out@.len() == i,
            forall|k: int| 0 <= k < i ==> (#[trigger] es[k]) is Text,
            forall|k: int| 0 <= k < i ==> (#[trigger] out@[k])@ == text_of(es[k]),
        decreases n - i,
    {
        match arr[i].as_str() {
            None => {
                proof {
                    assert(!(es[i as int] is Text));
                }
                return None;
            },
            Some(s) => out.push(String::from_str(s)),
        }
        i = i + 1;
    }
    proof {
        assert(out@.map_values(|s: String| s@) =~= es.map_values(|e: Json| text_of(e)));
    }
    Some(out)
}

/// The list of integers under `key`, if `v` holds an array there whose
/// elements are all integers.
pub fn get_i64_list(v: &serde_json::Value, key: &str) -> (r: Option<Vec<i64>>)
    ensures
        r is Some <==> i64_list_field(contents_of(*v), key@) is Some,
        r matches Some(xs) ==> Some(xs@) == i64_list_field(contents_of(*v), key@),
{
    let ghost elems = arr_field(contents_of(*v), key@);
    let arr = match json_get(v, key) {
        None => { return None; },
        Some(x) => match x.as_array() {
            None => { return None; },
            Some(a) => a,
        },
    };
    let ghost es = elems->Some_0;
    let mut out: Vec<i64> = Vec::new();
    let n = arr.len();
    let mut i: usize = 0;
    while i < n
        invariant
            elems == arr_field(contents_of(*v), key@),
            elems matches Some(es2) && es2 == es,
            n == arr@.len(),
            n == es.len(),
            forall|k: int| 0 <= k < n ==> contents_of(#[trigger] arr@[k]) == es[k],
            i <= n,
            out@.len() == i,
            forall|k: int|
                0 <= k < i ==> (#[trigger] es[k]) matches Json::Num { as_u, as_i: Some(_) },
            forall|k: int| 0 <= k < i ==> #[trigger] out@[k] == int_of(es[k]),
        decreases n - i,
    {
        match arr[i].as_i64() {
            None => {
                proof {
                    assert(!(es[i as int] matches Json::Num { as_u, as_i: Some(_) }));
                }
                return None;
            },
            Some(x) => out.push(x),
        }
        i = i + 1;
    }
    proof {
        assert(out@ =~= es.map_values(|e: Json| int_of(e)));
    }
    Some(out)
}

} // verus!
