use vstd::prelude::*;

verus! {

#[verifier::external_type_specification]
#[verifier::external_body]
pub struct ExJsonValue(json::JsonValue);

/// What a JSON object value holds: its entries as (key, value) string
/// pairs, in insertion order, which is the order serialization emits.
pub uninterp spec fn json_obj_entries(v: json::JsonValue) -> Seq<(Seq<char>, Seq<char>)>;

/// Whether a JSON value is an object whose members are all strings,
/// built only by the operations below; for such values the entries
/// determine the serialized text.
pub uninterp spec fn json_is_string_object(v: json::JsonValue) -> bool;

/// The compact serialization of a sequence of string-valued JSON
/// objects, as json::stringify produces it.
pub uninterp spec fn json_compact_of(objs: Seq<Seq<(Seq<char>, Seq<char>)>>) -> Seq<char>;

/// The pretty serialization of a sequence of string-valued JSON
/// objects with the given indent width, as json::stringify_pretty
/// produces it.
pub uninterp spec fn json_pretty_of(objs: Seq<Seq<(Seq<char>, Seq<char>)>>, spaces: u16) -> Seq<char>;

/// Relies on json::JsonValue::new_object: a fresh object with no entries.
#[verifier::external_body]
pub(crate) fn json_new_object() -> (v: json::JsonValue)
    ensures
        json_is_string_object(v),
        json_obj_entries(v) == Seq::<(Seq<char>, Seq<char>)>::empty(),
{
    json::JsonValue::new_object()
}

/// Relies on json::JsonValue's index assignment for string keys: on an
/// object, a key not yet present is appended together with its value,
/// and iteration (hence serialization) visits entries in that order.
#[verifier::external_body]
pub(crate) fn json_set(obj: &mut json::JsonValue, key: &str, val: &str)
    requires
        json_is_string_object(*old(obj)),
        forall|j: int|
            0 <= j < json_obj_entries(*old(obj)).len()
                ==> (#[trigger] json_obj_entries(*old(obj))[j]).0 != key@,
    ensures
        json_is_string_object(*final(obj)),
        json_obj_entries(*final(obj)) == json_obj_entries(*old(obj)).push((key@, val@)),
{
    obj[key] = val.into();
}

/// Relies on json::stringify: a vector of values serializes as a JSON
/// array of their serializations, compactly, with no whitespace.
#[verifier::external_body]
pub(crate) fn json_stringify(objs: Vec<json::JsonValue>) -> (r: String)
    requires
        forall|j: int| 0 <= j < objs@.len() ==> json_is_string_object(#[trigger] objs@[j]),
    ensures
        r@ == json_compact_of(objs@.map_values(|o: json::JsonValue| json_obj_entries(o))),
{
    json::stringify(objs)
}

/// Relies on json::stringify_pretty: a vector of values serializes as a
/// JSON array of their serializations, pretty-printed with the given
/// indent width.
#[verifier::external_body]
pub(crate) fn json_stringify_pretty(objs: Vec<json::JsonValue>, spaces: u16) -> (r: String)
    requires
        forall|j: int| 0 <= j < objs@.len() ==> json_is_string_object(#[trigger] objs@[j]),
    ensures
        r@ == json_pretty_of(objs@.map_values(|o: json::JsonValue| json_obj_entries(o)), spaces),
{
    json::stringify_pretty(objs, spaces)
}

} // verus!
