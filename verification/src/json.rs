use vstd::prelude::*;

verus! {

/// `serde_json::Value`, declared so that parsed documents can pass through
/// verified code; the library never looks inside one except through the
/// wrappers below.
#[verifier::external_type_specification]
#[verifier::external_body]
pub struct ExValue(serde_json::Value);

/// `serde_json::Error`, the error type of `serde_json::from_str`.
#[verifier::external_type_specification]
#[verifier::external_body]
pub struct ExError(serde_json::Error);

/// The compact serialization of a JSON value, as `serde_json`'s `Display`
/// renders it; a function of the value alone.
pub uninterp spec fn serial_view(v: serde_json::Value) -> Seq<char>;

/// The document that `serde_json::from_str` reads out of a string, given by
/// its compact serialization; `None` where the string is not one valid JSON
/// document.
pub uninterp spec fn parse_view(s: Seq<char>) -> Option<Seq<char>>;

/// The field `serde_json::Value::get` finds under a given string key, in the
/// JSON value whose compact serialization is `doc`, given by its own compact
/// serialization; `None` where that value is not an object or the key is
/// absent. The compact serialization determines the value, so the field is a
/// function of `doc` and `key` alone.
pub uninterp spec fn get_of(doc: Seq<char>, key: Seq<char>) -> Option<Seq<char>>;

/// The elements `serde_json::Value::as_array` hands out of the JSON value
/// whose compact serialization is `arr`, each given by its own compact
/// serialization; `None` where that value is not an array. The compact
/// serialization determines the value, so the elements are a function of
/// `arr` alone.
pub uninterp spec fn elems_of(arr: Seq<char>) -> Option<Seq<Seq<char>>>;

/// Relies on `serde_json::from_str::<Value>`: returns `Ok` exactly on a
/// valid JSON document, and the parse depends on the input text alone.
#[verifier::external_body]
pub(crate) fn parse_json(s: &str) -> (r: Result<serde_json::Value, serde_json::Error>)
    ensures
        r is Ok <==> parse_view(s@) is Some,
        r is Ok ==> serial_view(r->Ok_0) == parse_view(s@)->Some_0,
{
    serde_json::from_str(s)
}

/// Relies on `serde_json::Value::get` with a string index: looks a key up in
/// a JSON object, and is `None` on any other kind of value.
#[verifier::external_body]
pub(crate) fn value_get<'a>(v: &'a serde_json::Value, key: &str) -> (r: Option<
    &'a serde_json::Value,
>)
    ensures
        r is Some <==> get_of(serial_view(*v), key@) is Some,
        r is Some ==> serial_view(*r->Some_0) == get_of(serial_view(*v), key@)->Some_0,
{
    v.get(key)
}

/// Relies on `serde_json::Value::as_array`: hands the elements out exactly
/// when the value is a JSON array.
#[verifier::external_body]
pub(crate) fn value_as_array<'a>(v: &'a serde_json::Value) -> (r: Option<
    &'a Vec<serde_json::Value>,
>)
    ensures
        r is Some <==> elems_of(serial_view(*v)) is Some,
        r is Some ==> (r->Some_0)@.len() == elems_of(serial_view(*v))->Some_0.len(),
        r is Some ==> forall|i: int|
            0 <= i < (r->Some_0)@.len() ==> serial_view(#[trigger] (r->Some_0)@[i]) == elems_of(
                serial_view(*v),
            )->Some_0[i],
{
    v.as_array()
}

/// Relies on `serde_json::Value`'s `Display` impl, through `ToString`:
/// renders the compact serialization, a function of the value alone.
#[verifier::external_body]
pub(crate) fn value_to_string(v: &serde_json::Value) -> (r: String)
    ensures
        r@ == serial_view(*v),
{
    v.to_string()
}

} // verus!
