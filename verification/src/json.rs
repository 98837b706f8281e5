//! JSON objects with texts and integers in them.
use vstd::prelude::*;

verus! {

/// An object of serde_json. What it holds is named by `json_object`.
#[verifier::external_type_specification]
#[verifier::external_body]
#[verifier::reject_recursive_types(K)]
#[verifier::reject_recursive_types(V)]
pub struct ExJsonMap<K, V>(serde_json::Map<K, V>);

/// A value of serde_json.
#[verifier::external_type_specification]
#[verifier::external_body]
pub struct ExJsonValue(serde_json::Value);

/// An error of serde_json.
#[verifier::external_type_specification]
#[verifier::external_body]
pub struct ExJsonError(serde_json::Error);

/// A value in an object.
pub enum JsonScalar {
    Text(Seq<char>),
    Number(int),
}

/// The values of an empty object.
pub open spec fn no_values() -> Map<Seq<char>, JsonScalar> {
    Map::empty()
}

/// The values of an object by their keys.
pub uninterp spec fn json_object(m: serde_json::Map<String, serde_json::Value>) -> Map<
    Seq<char>,
    JsonScalar,
>;

/// `Map::new` of serde_json: an empty object.
#[verifier::external_body]
pub(crate) fn new_object() -> (r: serde_json::Map<String, serde_json::Value>)
    ensures
        json_object(r) == no_values(),
{
    serde_json::Map::new()
}

/// `Map::insert` of serde_json: the key has this text, whatever value it had before.
#[verifier::external_body]
pub(crate) fn put_text(
    m: &mut serde_json::Map<String, serde_json::Value>,
    key: &str,
    value: &str,
)
    ensures
        json_object(*final(m)) == json_object(*old(m)).insert(key@, JsonScalar::Text(value@)),
{
    m.insert(key.to_owned(), serde_json::Value::from(value));
}

/// `Map::insert` of serde_json: the key has this number, whatever value it had before.
#[verifier::external_body]
pub(crate) fn put_u64(m: &mut serde_json::Map<String, serde_json::Value>, key: &str, value: u64)
    ensures
        json_object(*final(m)) == json_object(*old(m)).insert(
            key@,
            JsonScalar::Number(value as int),
        ),
{
    m.insert(key.to_owned(), serde_json::Value::from(value));
}

/// `Map::insert` of serde_json: the key has this number, whatever value it had before.
#[verifier::external_body]
pub(crate) fn put_i64(m: &mut serde_json::Map<String, serde_json::Value>, key: &str, value: i64)
    ensures
        json_object(*final(m)) == json_object(*old(m)).insert(
            key@,
            JsonScalar::Number(value as int),
        ),
{
    m.insert(key.to_owned(), serde_json::Value::from(value));
}

/// An object as JSON in one line.
pub uninterp spec fn json_compact(m: Map<Seq<char>, JsonScalar>) -> Seq<char>;

/// `to_string` of serde_json on an object: it succeeds, and there is no line feed in the text, since
/// every control character in a string is escaped and no white space is added.
#[verifier::external_body]
pub(crate) fn to_compact(m: &serde_json::Map<String, serde_json::Value>) -> (r: Result<
    String,
    serde_json::Error,
>)
    ensures
        r is Ok,
        r->Ok_0@ == json_compact(json_object(*m)),
        !r->Ok_0@.contains('\n'),
{
    serde_json::to_string(m)
}

/// An object as JSON over several lines.
pub uninterp spec fn json_pretty(m: Map<Seq<char>, JsonScalar>) -> Seq<char>;

/// `to_string_pretty` of serde_json on an object: it succeeds.
#[verifier::external_body]
pub(crate) fn to_pretty(m: &serde_json::Map<String, serde_json::Value>) -> (r: Result<
    String,
    serde_json::Error,
>)
    ensures
        r is Ok,
        r->Ok_0@ == json_pretty(json_object(*m)),
{
    serde_json::to_string_pretty(m)
}

} // verus!
