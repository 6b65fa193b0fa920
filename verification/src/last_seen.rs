//! Where each target was last seen (hub location and port, and the VID:PID
//! of the device there), kept as a JSON
//! object so that powering a board on still works while it is off and
//! absent from the listing.
use vstd::prelude::*;
use crate::text::{ascii_lower, lower_chars, to_chars, to_string};

verus! {

#[verifier::external_type_specification]
#[verifier::external_body]
#[verifier::reject_recursive_types(K)]
#[verifier::reject_recursive_types(V)]
pub struct ExJsonMap<K, V>(serde_json::Map<K, V>);

#[verifier::external_type_specification]
#[verifier::external_body]
pub struct ExJsonValue(serde_json::Value);

/// A JSON object.
pub type JsonObject = serde_json::Map<String, serde_json::Value>;

/// A last-seen record: location, port, and the VID:PID of the device seen
/// there (when recorded).
pub type Spot = (Seq<char>, Seq<char>, Option<Seq<char>>);

/// What a JSON object holds as last-seen records: each member name, with the
/// `location` and `port` strings of its value (and its `vidpid` string, when
/// that member is a string) when the value is an object whose `location` and
/// `port` members are both strings.
pub uninterp spec fn seen_records(m: JsonObject) -> Map<Seq<char>, Option<Spot>>;

/// How deeply a JSON object nests: the object itself is one level, and
/// each object or array inside a member adds one.
pub uninterp spec fn nesting_depth(m: JsonObject) -> nat;

/// The records of the JSON object that a text holds, if it holds one.
pub uninterp spec fn parsed_records(text: Seq<char>) -> Option<Map<Seq<char>, Option<Spot>>>;

/// `serde_json::from_str` into a JSON object: `Some` exactly when the text
/// is one, and then its records are those that `parsed_records` names.
/// serde_json refuses text nested 128 levels deep or more, so what it parses
/// nests at most 127 levels.
#[verifier::external_body]
fn parse_object(text: &str) -> (r: Option<JsonObject>)
    ensures
        r is Some <==> parsed_records(text@) is Some,
        r matches Some(m) ==> parsed_records(text@) == Some(seen_records(m)),
        r matches Some(m) ==> nesting_depth(m) <= 127,
{
    serde_json::from_str::<JsonObject>(text).ok()
}

/// `serde_json::Map::new`: an object without members.
#[verifier::external_body]
fn empty_object() -> (r: JsonObject)
    ensures
        seen_records(r).dom() == Set::<Seq<char>>::empty(),
        nesting_depth(r) == 1,
{
    serde_json::Map::new()
}

/// `serde_json::Map::get` of a member, read as a record: the `location` and
/// `port` strings of the member's value, if both are strings, with its
/// `vidpid` string if that is one.
#[verifier::external_body]
fn object_record(m: &JsonObject, key: &str) -> (r: Option<(String, String, Option<String>)>)
    ensures
        match r {
            Some((l, p, v)) => seen_records(*m).contains_key(key@) && seen_records(*m)[key@] == Some(
                (l@, p@, v.deep_view()),
            ),
            None => !seen_records(*m).contains_key(key@) || seen_records(*m)[key@] is None,
        },
{
    let v = m.get(key)?;
    let vidpid = match v.get("vidpid") {
        Some(x) => match x.as_str() {
            Some(s) => Some(s.to_string()),
            None => None,
        },
        None => None,
    };
    Some((v.get("location")?.as_str()?.to_string(), v.get("port")?.as_str()?.to_string(), vidpid))
}

/// `serde_json::Map::insert` of the member `key` with the value
/// `{"location": location, "port": port, "vidpid": vidpid}` (built with
/// `Map::from_iter`), replacing any earlier member. The new member nests two
/// levels; the one it replaces, if any, is gone.
#[verifier::external_body]
fn insert_record(m: &mut JsonObject, key: String, location: &str, port: &str, vidpid: &str)
    ensures
        seen_records(*final(m)) == seen_records(*old(m)).insert(
            key@,
            Some((location@, port@, Some(vidpid@))),
        ),
        nesting_depth(*final(m)) <= if nesting_depth(*old(m)) < 2 {
            2
        } else {
            nesting_depth(*old(m))
        },
{
    let v: JsonObject = serde_json::Map::from_iter([
        ("location".to_string(), serde_json::Value::String(location.to_string())),
        ("port".to_string(), serde_json::Value::String(port.to_string())),
        ("vidpid".to_string(), serde_json::Value::String(vidpid.to_string())),
    ]);
    m.insert(key, serde_json::Value::Object(v));
}

/// `serde_json::to_string` of an object (which cannot fail for an object):
/// when the object nests within serde_json's parse limit, parsing the text
/// back gives the same records.
#[verifier::external_body]
fn object_text(m: &JsonObject) -> (r: String)
    ensures
        nesting_depth(*m) <= 127 ==> parsed_records(r@) == Some(seen_records(*m)),
{
    serde_json::to_string(m).unwrap_or_default()
}

/// The records of a state text; no text, or one that is no JSON object,
/// holds none.
pub open spec fn records_of(state: Option<Seq<char>>) -> Map<Seq<char>, Option<Spot>> {
    match state {
        Some(t) => match parsed_records(t) {
            Some(m) => m,
            None => Map::empty(),
        },
        None => Map::empty(),
    }
}

/// The record of a target in a state text, looked up by its key in ASCII
/// lower case.
pub open spec fn recalled(state: Option<Seq<char>>, key: Seq<char>) -> Option<Spot> {
    match state {
        Some(t) => match parsed_records(t) {
            Some(m) => if m.contains_key(ascii_lower(key)) {
                m[ascii_lower(key)]
            } else {
                None
            },
            None => None,
        },
        None => None,
    }
}

pub open spec fn opt_text(state: Option<&str>) -> Option<Seq<char>> {
    match state {
        Some(t) => Some(t@),
        None => None,
    }
}

/// The new state text after a target was seen at `location`:`port` with
/// the device `vidpid` attached: the records of the old text (none if it is
/// unreadable), with the target's record, under its key in ASCII lower
/// case, replaced.
pub fn remember_location(state: Option<&str>, key: &str, location: &str, port: &str, vidpid: &str) -> (text: String)
    ensures
        parsed_records(text@) == Some(
            records_of(opt_text(state)).insert(
                ascii_lower(key@),
                Some((location@, port@, Some(vidpid@))),
            ),
        ),
{
    let mut m = match state {
        Some(t) => match parse_object(t) {
            Some(m) => m,
            None => empty_object(),
        },
        None => empty_object(),
    };
    let k = to_string(&lower_chars(&to_chars(key)));
    insert_record(&mut m, k, location, port, vidpid);
    object_text(&m)
}

/// Where a target was last seen according to a state text.
pub fn recall_location(state: Option<&str>, key: &str) -> (r: Option<(String, String, Option<String>)>)
    ensures
        match r {
            Some((l, p, v)) => recalled(opt_text(state), key@) == Some((l@, p@, v.deep_view())),
            None => recalled(opt_text(state), key@) is None,
        },
{
    let t = state?;
    let m = parse_object(t)?;
    let k = to_string(&lower_chars(&to_chars(key)));
    object_record(&m, k.as_str())
}

/// A record, once remembered, is what a later recall by the same key (up
/// to ASCII case) gives back; records under other keys stay as they were.
pub proof fn law_recall_after_remember(
    state: Option<Seq<char>>,
    key: Seq<char>,
    other: Seq<char>,
    location: Seq<char>,
    port: Seq<char>,
    vidpid: Seq<char>,
    text: Seq<char>,
)
    requires
        parsed_records(text) == Some(
            records_of(state).insert(ascii_lower(key), Some((location, port, Some(vidpid)))),
        ),
    ensures
        ascii_lower(other) == ascii_lower(key) ==> recalled(Some(text), other) == Some(
            (location, port, Some(vidpid)),
        ),
        ascii_lower(other) != ascii_lower(key) && parsed_records(state->0) is Some && state is Some
            ==> recalled(Some(text), other) == recalled(state, other),
{
}

} // verus!
