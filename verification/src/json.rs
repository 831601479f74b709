//! Trusted bridge to `serde_json` — the opaque JSON value type, a ghost
//! model of what such a value holds, and the handful of operations the
//! structured-event parsers need — together with the verified shape checks
//! for the three structured event payloads.

use vstd::prelude::*;
use crate::accum::DevAction;
use crate::accum::DevSource;
use crate::accum::DevGithubSource;

verus! {

/// Declares `serde_json::Value` so that it can stand in signatures and
/// fields; a value of it is opaque to the verifier.
#[verifier::external_type_specification]
#[verifier::external_body]
pub struct ExJsonValue(serde_json::Value);

/// Declares `serde_json::Map`, the object representation of `serde_json`.
#[verifier::external_type_specification]
#[verifier::external_body]
#[verifier::reject_recursive_types(K)]
#[verifier::reject_recursive_types(V)]
pub struct ExJsonMap<K, V>(serde_json::Map<K, V>);

/// The mathematical shape of a JSON value, as far as this library reads
/// one: a number is abstracted to its `u64` reading (the only reading the
/// event shapes use) and an object to an unordered key map.
pub ghost enum JsonModel {
    Null,
    Bool(bool),
    Num(Option<u64>),
    Str(Seq<char>),
    Arr(Seq<JsonModel>),
    Obj(Map<Seq<char>, JsonModel>),
}

/// The map of an `Obj` model; empty for every other shape.
pub open spec fn obj_of(m: JsonModel) -> Map<Seq<char>, JsonModel> {
    match m {
        JsonModel::Obj(o) => o,
        _ => Map::empty(),
    }
}

/// The elements of an `Arr` model; empty for every other shape.
pub open spec fn arr_of(m: JsonModel) -> Seq<JsonModel> {
    match m {
        JsonModel::Arr(a) => a,
        _ => Seq::empty(),
    }
}

/// The text of a `Str` model; empty for every other shape.
pub open spec fn str_of(m: JsonModel) -> Seq<char> {
    match m {
        JsonModel::Str(s) => s,
        _ => Seq::empty(),
    }
}

/// The `u64` reading of a `Num` model; `None` for every other shape and for
/// numbers without one (negative, fractional, too large).
pub open spec fn u64_of(m: JsonModel) -> Option<u64> {
    match m {
        JsonModel::Num(n) => n,
        _ => None,
    }
}

/// What an opaque `serde_json::Value` holds, abstracted to the model above;
/// a function of the value's structure alone.
pub uninterp spec fn value_model(v: serde_json::Value) -> JsonModel;

/// What an opaque `serde_json::Map` holds: each key's text mapped to the
/// model of its value.
pub uninterp spec fn object_model(m: serde_json::Map<String, serde_json::Value>) -> Map<
    Seq<char>,
    JsonModel,
>;

/// What `serde_json::from_str::<Value>` yields for a given text — `None`
/// where the text is rejected — abstracted to the model. The result is a
/// function of the text alone.
pub uninterp spec fn json_model_of(s: Seq<char>) -> Option<JsonModel>;

/// Whether the text parses as one JSON value.
pub open spec fn json_parses(s: Seq<char>) -> bool {
    json_model_of(s) is Some
}

/// Relies on `serde_json::Value`'s `Clone`: the copy has the same structure,
/// so it carries the same model.
pub assume_specification[ <serde_json::Value as Clone>::clone ](
    v: &serde_json::Value,
) -> (r: serde_json::Value)
    ensures
        value_model(r) == value_model(*v),
;

/// Relies on `serde_json::from_str`: parses the text as one JSON value;
/// whether it parses, and to what shape, depend on the text alone.
#[verifier::external_body]
fn json_from_str(s: &str) -> (r: Option<serde_json::Value>)
    ensures
        r is Some <==> json_parses(s@),
        (match r {
            Some(v) => (match json_model_of(s@) {
                Some(m) => value_model(v) == m,
                None => false,
            }),
            None => true,
        }),
{
    match serde_json::from_str::<serde_json::Value>(s) {
        Ok(v) => Some(v),
        Err(_) => None,
    }
}

/// Relies on `serde_json::Value`: tells the `Object` variant apart and hands
/// its map out.
#[verifier::external_body]
fn value_into_object(v: serde_json::Value) -> (r: Option<
    serde_json::Map<String, serde_json::Value>,
>)
    ensures
        r is Some <==> value_model(v) is Obj,
        (match r {
            Some(o) => object_model(o) == obj_of(value_model(v)),
            None => true,
        }),
{
    match v {
        serde_json::Value::Object(m) => Some(m),
        _ => None,
    }
}

/// Relies on `serde_json::Value`: tells the `Array` variant apart and hands
/// its elements out, in order.
#[verifier::external_body]
fn value_into_array(v: serde_json::Value) -> (r: Option<Vec<serde_json::Value>>)
    ensures
        r is Some <==> value_model(v) is Arr,
        (match r {
            Some(a) => a@.len() == arr_of(value_model(v)).len() && forall|i: int|
                0 <= i < a@.len() ==> value_model(#[trigger] a@[i]) == arr_of(value_model(v))[i],
            None => true,
        }),
{
    match v {
        serde_json::Value::Array(a) => Some(a),
        _ => None,
    }
}

/// Relies on `serde_json::Value`: tells the `String` variant apart and hands
/// its text out.
#[verifier::external_body]
fn value_into_string(v: serde_json::Value) -> (r: Option<String>)
    ensures
        r is Some <==> value_model(v) is Str,
        (match r {
            Some(s) => s@ == str_of(value_model(v)),
            None => true,
        }),
{
    match v {
        serde_json::Value::String(s) => Some(s),
        _ => None,
    }
}

/// Relies on `serde_json::Value::is_null`.
#[verifier::external_body]
fn value_is_null(v: &serde_json::Value) -> (r: bool)
    ensures
        r == (value_model(*v) is Null),
{
    v.is_null()
}

/// Relies on `serde_json::Value::as_u64`: the numeric value, exactly when
/// the value is an integer representable as `u64`.
#[verifier::external_body]
fn value_as_u64(v: &serde_json::Value) -> (r: Option<u64>)
    ensures
        r == u64_of(value_model(*v)),
{
    v.as_u64()
}

/// Relies on `serde_json::Map::remove`: takes the entry under the key out of
/// the object — present exactly when the key is there.
#[verifier::external_body]
fn map_remove(
    m: &mut serde_json::Map<String, serde_json::Value>,
    key: &str,
) -> (r: Option<serde_json::Value>)
    ensures
        r is Some <==> object_model(*old(m)).contains_key(key@),
        (match r {
            Some(v) => value_model(v) == object_model(*old(m))[key@],
            None => true,
        }),
        object_model(*final(m)) == object_model(*old(m)).remove(key@),
{
    m.remove(key)
}

/// Relies on `serde_json::Value::Object`: wraps a map back up as a JSON
/// object value.
#[verifier::external_body]
fn object_value(m: serde_json::Map<String, serde_json::Value>) -> (r: serde_json::Value)
    ensures
        value_model(r) == JsonModel::Obj(object_model(m)),
{
    serde_json::Value::Object(m)
}

/// Whether an `action` payload has the expected shape: a JSON object whose
/// `type` entry is an integer that fits `u32`.
pub open spec fn action_ok(s: Seq<char>) -> bool {
    &&& json_parses(s)
    &&& (match json_model_of(s) {
        Some(m) => m is Obj && obj_of(m).contains_key("type"@) && (match u64_of(
            obj_of(m)["type"@],
        ) {
            Some(t) => t <= u32::MAX as u64,
            None => false,
        }),
        None => false,
    })
}

/// The `type` of an `action` payload that passes `action_ok`.
pub open spec fn action_type_of(s: Seq<char>) -> u64 {
    match json_model_of(s) {
        Some(m) => (match u64_of(obj_of(m)["type"@]) {
            Some(t) => t,
            None => 0,
        }),
        None => 0,
    }
}

/// The extras bag of an `action` payload: every field but `type`.
pub open spec fn action_extra_of(s: Seq<char>) -> Map<Seq<char>, JsonModel> {
    match json_model_of(s) {
        Some(m) => obj_of(m).remove("type"@),
        None => Map::empty(),
    }
}

/// Whether an object may carry the optional string field `k`: absent, null
/// or a string.
pub open spec fn opt_str_ok(o: Map<Seq<char>, JsonModel>, k: Seq<char>) -> bool {
    o.contains_key(k) ==> (o[k] is Null || o[k] is Str)
}

/// The optional string field `k`: its text when it is a string, `None` when
/// absent or null.
pub open spec fn opt_str_of(o: Map<Seq<char>, JsonModel>, k: Seq<char>) -> Option<Seq<char>> {
    if o.contains_key(k) && o[k] is Str {
        Some(str_of(o[k]))
    } else {
        None
    }
}

/// Whether one element of a structured list payload has the expected shape:
/// an object whose `k1` and `k2` entries, when present, are strings or null.
pub open spec fn record_ok(m: JsonModel, k1: Seq<char>, k2: Seq<char>) -> bool {
    m is Obj && opt_str_ok(obj_of(m), k1) && opt_str_ok(obj_of(m), k2)
}

/// The extras bag of such an element: every field but `k1` and `k2`.
pub open spec fn record_extra_of(m: JsonModel, k1: Seq<char>, k2: Seq<char>) -> Map<
    Seq<char>,
    JsonModel,
> {
    obj_of(m).remove(k1).remove(k2)
}

pub open spec fn opt_string_view(o: Option<String>) -> Option<Seq<char>> {
    match o {
        Some(s) => Some(s@),
        None => None,
    }
}

/// A parsed source is exactly its payload element: title, url, and the
/// extras bag holding every other field.
pub open spec fn source_matches(d: DevSource, m: JsonModel) -> bool {
    &&& opt_string_view(d.title) == opt_str_of(obj_of(m), "title"@)
    &&& opt_string_view(d.url) == opt_str_of(obj_of(m), "url"@)
    &&& value_model(d.extra) == JsonModel::Obj(record_extra_of(m, "title"@, "url"@))
}

/// A parsed GitHub source is exactly its payload element: repo, filePath,
/// and the extras bag holding every other field.
pub open spec fn github_source_matches(d: DevGithubSource, m: JsonModel) -> bool {
    &&& opt_string_view(d.repo) == opt_str_of(obj_of(m), "repo"@)
    &&& opt_string_view(d.file_path) == opt_str_of(obj_of(m), "filePath"@)
    &&& value_model(d.extra) == JsonModel::Obj(record_extra_of(m, "repo"@, "filePath"@))
}

/// Whether a `sources` payload has the expected shape: a JSON array whose
/// elements all pass the element check.
pub open spec fn sources_ok(s: Seq<char>) -> bool {
    &&& json_parses(s)
    &&& (match json_model_of(s) {
        Some(m) => m is Arr,
        None => false,
    })
    &&& forall|i: int|
        0 <= i < payload_elems_of(s).len() ==> record_ok(
            #[trigger] payload_elems_of(s)[i],
            "title"@,
            "url"@,
        )
}

/// Whether a `repoSources` payload has the expected shape.
pub open spec fn github_sources_ok(s: Seq<char>) -> bool {
    &&& json_parses(s)
    &&& (match json_model_of(s) {
        Some(m) => m is Arr,
        None => false,
    })
    &&& forall|i: int|
        0 <= i < payload_elems_of(s).len() ==> record_ok(
            #[trigger] payload_elems_of(s)[i],
            "repo"@,
            "filePath"@,
        )
}

/// The elements of a structured list payload.
pub open spec fn payload_elems_of(s: Seq<char>) -> Seq<JsonModel> {
    match json_model_of(s) {
        Some(m) => arr_of(m),
        None => Seq::empty(),
    }
}

/// Takes an optional string field out of an object: absent or `null` yields
/// `Some(None)`, a string yields `Some(Some(_))`, any other value is a shape
/// error and yields `None`. The key is removed either way.
fn take_string_field(
    m: &mut serde_json::Map<String, serde_json::Value>,
    key: &str,
) -> (r: Option<Option<String>>)
    ensures
        r is Some <==> opt_str_ok(object_model(*old(m)), key@),
        (match r {
            Some(o) => opt_string_view(o) == opt_str_of(object_model(*old(m)), key@),
            None => true,
        }),
        object_model(*final(m)) == object_model(*old(m)).remove(key@),
{
    match map_remove(m, key) {
        None => Some(None),
        Some(v) => {
            if value_is_null(&v) {
                Some(None)
            } else {
                match value_into_string(v) {
                    Some(s) => Some(Some(s)),
                    None => None,
                }
            }
        },
    }
}

/// Parses an `action` payload: a JSON object whose `type` field is an
/// integer that fits `u32`; every other field is preserved in `extra`.
pub fn parse_action(data: &str) -> (r: Option<DevAction>)
    ensures
        r is Some <==> action_ok(data@),
        (match r {
            Some(a) => a.action_type as u64 == action_type_of(data@) && value_model(a.extra)
                == JsonModel::Obj(action_extra_of(data@)),
            None => true,
        }),
{
    let v = match json_from_str(data) {
        Some(v) => v,
        None => {
            return None;
        },
    };
    let mut m = match value_into_object(v) {
        Some(m) => m,
        None => {
            return None;
        },
    };
    let tv = match map_remove(&mut m, "type") {
        Some(t) => t,
        None => {
            return None;
        },
    };
    let t64 = match value_as_u64(&tv) {
        Some(x) => x,
        None => {
            return None;
        },
    };
    if t64 > u32::MAX as u64 {
        return None;
    }
    Some(DevAction { action_type: t64 as u32, extra: object_value(m) })
}

/// Parses one element of a `sources` payload.
fn parse_source(v: serde_json::Value) -> (r: Option<DevSource>)
    ensures
        r is Some <==> record_ok(value_model(v), "title"@, "url"@),
        (match r {
            Some(d) => source_matches(d, value_model(v)),
            None => true,
        }),
{
    proof {
        reveal_strlit("title");
        reveal_strlit("url");
        assert("title"@.len() == 5 && "url"@.len() == 3);
    }
    let mut m = match value_into_object(v) {
        Some(m) => m,
        None => {
            return None;
        },
    };
    let title = match take_string_field(&mut m, "title") {
        Some(t) => t,
        None => {
            return None;
        },
    };
    let url = match take_string_field(&mut m, "url") {
        Some(u) => u,
        None => {
            return None;
        },
    };
    Some(DevSource { title, url, extra: object_value(m) })
}

/// Parses one element of a `repoSources` payload.
fn parse_github_source(v: serde_json::Value) -> (r: Option<DevGithubSource>)
    ensures
        r is Some <==> record_ok(value_model(v), "repo"@, "filePath"@),
        (match r {
            Some(d) => github_source_matches(d, value_model(v)),
            None => true,
        }),
{
    proof {
        reveal_strlit("repo");
        reveal_strlit("filePath");
        assert("repo"@.len() == 4 && "filePath"@.len() == 8);
    }
    let mut m = match value_into_object(v) {
        Some(m) => m,
        None => {
            return None;
        },
    };
    let repo = match take_string_field(&mut m, "repo") {
        Some(t) => t,
        None => {
            return None;
        },
    };
    let file_path = match take_string_field(&mut m, "filePath") {
        Some(u) => u,
        None => {
            return None;
        },
    };
    Some(DevGithubSource { repo, file_path, extra: object_value(m) })
}

/// Parses a `sources` payload: a JSON array of source objects, kept in
/// order. One bad element fails the whole payload, which the caller drops.
pub fn parse_sources(data: &str) -> (r: Option<Vec<DevSource>>)
    ensures
        r is Some <==> sources_ok(data@),
        (match r {
            Some(v) => v@.len() == payload_elems_of(data@).len() && forall|i: int|
                0 <= i < v@.len() ==> source_matches(#[trigger] v@[i], payload_elems_of(data@)[i]),
            None => true,
        }),
{
    let v = match json_from_str(data) {
        Some(v) => v,
        None => {
            return None;
        },
    };
    let ghost elems = payload_elems_of(data@);
    let mut arr = match value_into_array(v) {
        Some(a) => a,
        None => {
            return None;
        },
    };
    let mut out: Vec<DevSource> = Vec::new();
    while arr.len() > 0
        invariant
            elems == payload_elems_of(data@),
            out@.len() + arr@.len() == elems.len(),
            forall|i: int|
                0 <= i < out@.len() ==> source_matches(#[trigger] out@[i], elems[i]) && record_ok(
                    elems[i],
                    "title"@,
                    "url"@,
                ),
            forall|j: int|
                0 <= j < arr@.len() ==> value_model(#[trigger] arr@[j]) == elems[out@.len() + j],
        decreases arr@.len(),
    {
        let ghost k = out@.len() as int;
        let e = arr.remove(0);
        proof {
            assert(value_model(e) == elems[k]);
        }
        match parse_source(e) {
            Some(s) => out.push(s),
            None => {
                proof {
                    assert(!record_ok(payload_elems_of(data@)[k], "title"@, "url"@));
                }
                return None;
            },
        }
    }
    proof {
        assert forall|i: int| 0 <= i < payload_elems_of(data@).len() implies record_ok(
            #[trigger] payload_elems_of(data@)[i],
            "title"@,
            "url"@,
        ) by {
            assert(source_matches(out@[i], elems[i]) && record_ok(elems[i], "title"@, "url"@));
        }
    }
    Some(out)
}

/// Parses a `repoSources` payload: a JSON array of GitHub source objects,
/// kept in order.
pub fn parse_github_sources(data: &str) -> (r: Option<Vec<DevGithubSource>>)
    ensures
        r is Some <==> github_sources_ok(data@),
        (match r {
            Some(v) => v@.len() == payload_elems_of(data@).len() && forall|i: int|
                0 <= i < v@.len() ==> github_source_matches(
                    #[trigger] v@[i],
                    payload_elems_of(data@)[i],
                ),
            None => true,
        }),
{
    let v = match json_from_str(data) {
        Some(v) => v,
        None => {
            return None;
        },
    };
    let ghost elems = payload_elems_of(data@);
    let mut arr = match value_into_array(v) {
        Some(a) => a,
        None => {
            return None;
        },
    };
    let mut out: Vec<DevGithubSource> = Vec::new();
    while arr.len() > 0
        invariant
            elems == payload_elems_of(data@),
            out@.len() + arr@.len() == elems.len(),
            forall|i: int|
                0 <= i < out@.len() ==> github_source_matches(#[trigger] out@[i], elems[i])
                    && record_ok(elems[i], "repo"@, "filePath"@),
            forall|j: int|
                0 <= j < arr@.len() ==> value_model(#[trigger] arr@[j]) == elems[out@.len() + j],
        decreases arr@.len(),
    {
        let ghost k = out@.len() as int;
        let e = arr.remove(0);
        proof {
            assert(value_model(e) == elems[k]);
        }
        match parse_github_source(e) {
            Some(s) => out.push(s),
            None => {
                proof {
                    assert(!record_ok(payload_elems_of(data@)[k], "repo"@, "filePath"@));
                }
                return None;
            },
        }
    }
    proof {
        assert forall|i: int| 0 <= i < payload_elems_of(data@).len() implies record_ok(
            #[trigger] payload_elems_of(data@)[i],
            "repo"@,
            "filePath"@,
        ) by {
            assert(github_source_matches(out@[i], elems[i]) && record_ok(
                elems[i],
                "repo"@,
                "filePath"@,
            ));
        }
    }
    Some(out)
}

} // verus!
