//! What the library takes from other crates. Each item here is a thin layer over one outside
//! function; its contract is believed, not proved.
use crate::text::text_result;
use vstd::prelude::*;

verus! {

/// What `reqwest::Url::parse` makes of a text: the parsed address in its normal form, or the
/// words of the parse error.
pub uninterp spec fn parsed_url(text: Seq<char>) -> Result<Seq<char>, Seq<char>>;

/// Calls `reqwest::Url::parse`. The contract says only that the outcome is a function of the
/// text: the normal form of the address, or the words of the parse error.
#[verifier::external_body]
pub(crate) fn parse_url(text: &str) -> (parsed: Result<String, String>)
    ensures
        text_result(parsed) == parsed_url(text@),
{
    match reqwest::Url::parse(text) {
        Ok(url) => Ok(url.to_string()),
        Err(error) => Err(error.to_string()),
    }
}

/// Whether `c` is a hexadecimal digit in lower case.
pub open spec fn is_lower_hex(c: char) -> bool {
    '0' <= c <= '9' || 'a' <= c <= 'f'
}

/// The hyphenated lower-case form of a random (version 4) UUID.
pub open spec fn is_random_uuid(text: Seq<char>) -> bool {
    &&& text.len() == 36
    &&& forall|i: int|
        0 <= i < 36 ==> if i == 8 || i == 13 || i == 18 || i == 23 {
            #[trigger] text[i] == '-'
        } else {
            is_lower_hex(text[i])
        }
    &&& text[14] == '4'
    &&& text[19] == '8' || text[19] == '9' || text[19] == 'a' || text[19] == 'b'
}

/// Calls `uuid::Uuid::new_v4` and writes the UUID with its `Display`. Which UUID comes out is
/// chance; the contract gives the form that every one of them has.
#[verifier::external_body]
pub(crate) fn random_uuid_text() -> (text: String)
    ensures
        is_random_uuid(text@),
{
    uuid::Uuid::new_v4().to_string()
}

/// A JSON value of `serde_json`.
#[verifier::external_type_specification]
#[verifier::external_body]
pub struct ExJsonValue(serde_json::Value);

/// A JSON object of `serde_json`.
#[verifier::external_type_specification]
#[verifier::external_body]
#[verifier::reject_recursive_types(K)]
#[verifier::reject_recursive_types(V)]
pub struct ExJsonMap<K, V>(serde_json::Map<K, V>);

/// What stands under a key of a JSON object.
pub enum JsonEntry {
    /// A JSON string, by its text.
    Text(Seq<char>),
    /// A JSON truth value.
    Flag(bool),
    /// Anything else.
    Other,
}

/// What a JSON object holds, key by key.
pub uninterp spec fn json_entries(
    object: serde_json::Map<String, serde_json::Value>,
) -> Map<Seq<char>, JsonEntry>;

/// What an empty JSON object holds.
pub open spec fn no_entries() -> Map<Seq<char>, JsonEntry> {
    Map::empty()
}

/// Calls `serde_json::Map::new`: the object holds nothing.
#[verifier::external_body]
pub(crate) fn json_object() -> (object: serde_json::Map<String, serde_json::Value>)
    ensures
        json_entries(object) == no_entries(),
{
    serde_json::Map::new()
}

/// Calls `serde_json::Map::insert` with a JSON string: the key now holds that text, whatever it
/// held before, and every other key holds what it held.
#[verifier::external_body]
pub(crate) fn json_insert_text(
    object: &mut serde_json::Map<String, serde_json::Value>,
    key: &str,
    text: &str,
)
    ensures
        json_entries(*final(object)) == json_entries(*old(object)).insert(
            key@,
            JsonEntry::Text(text@),
        ),
{
    object.insert(key.to_string(), serde_json::Value::String(text.to_string()));
}

/// Calls `serde_json::Map::insert` with a JSON truth value: the key now holds it, whatever it held
/// before, and every other key holds what it held.
#[verifier::external_body]
pub(crate) fn json_insert_flag(
    object: &mut serde_json::Map<String, serde_json::Value>,
    key: &str,
    flag: bool,
)
    ensures
        json_entries(*final(object)) == json_entries(*old(object)).insert(
            key@,
            JsonEntry::Flag(flag),
        ),
{
    object.insert(key.to_string(), serde_json::Value::Bool(flag));
}

/// The JSON text of a value, or the words of the error.
pub uninterp spec fn json_text(value: serde_json::Value) -> Result<Seq<char>, Seq<char>>;

/// Calls `serde_json::to_string`. The contract says only that the outcome is a function of the
/// value.
#[verifier::external_body]
pub(crate) fn json_to_text(value: &serde_json::Value) -> (text: Result<String, String>)
    ensures
        text_result(text) == json_text(*value),
{
    serde_json::to_string(value).map_err(|error| error.to_string())
}

} // verus!
