//! Story records and how they are decoded from the aggregator's JSON.

use vstd::prelude::*;
use vstd::string::*;

verus! {

#[verifier::external_type_specification]
#[verifier::external_body]
pub struct ExJsonValue(serde_json::Value);

#[verifier::external_type_specification]
#[verifier::external_body]
pub struct ExJsonError(serde_json::Error);

/// One story as fetched: its identifier and the fields the reader shows.
#[derive(Debug)]
pub struct Story {
    pub id: u64,
    pub title: Option<String>,
    pub url: Option<String>,
    pub kids: Option<Vec<u64>>,
}

/// Why a run stopped.
#[derive(Debug)]
pub enum RunError {
    /// A request failed; the message says how.
    Fetch(String),
    /// A response body was not the JSON expected.
    Malformed(String),
}

impl Story {
    /// The text a story is matched on: its title, or empty when it has none.
    pub open spec fn title_view(&self) -> Seq<char> {
        match self.title {
            Some(t) => t@,
            None => Seq::empty(),
        }
    }

    /// The number of comments: the length of `kids`, zero when absent.
    pub open spec fn comment_count_view(&self) -> nat {
        match self.kids {
            Some(k) => k@.len(),
            None => 0,
        }
    }

    /// The title to match on, empty when the story has none.
    pub fn title_text(&self) -> (r: &str)
        ensures
            r@ == self.title_view(),
    {
        match &self.title {
            Some(t) => t.as_str(),
            None => {
                proof {
                    reveal_strlit("");
                }
                ""
            },
        }
    }

    /// The number of comments on the story; zero when it lists none.
    pub fn comment_count(&self) -> (r: usize)
        ensures
            r == self.comment_count_view(),
    {
        match &self.kids {
            Some(k) => k.len(),
            None => 0,
        }
    }
}

/// What serde_json makes of `body` read as a JSON array of unsigned
/// integers, or `None` when it is not one.
pub uninterp spec fn json_u64_list(body: Seq<u8>) -> Option<Seq<u64>>;

/// Relies on serde_json::from_slice::<Vec<u64>>: a deterministic decoding of
/// the bytes, failing exactly when they are not such an array.
#[verifier::external_body]
fn decode_id_list(body: &[u8]) -> (r: Result<Vec<u64>, serde_json::Error>)
    ensures
        r is Ok ==> json_u64_list(body@) == Some(r->Ok_0@),
        r is Err ==> json_u64_list(body@) is None,
{
    serde_json::from_slice::<Vec<u64>>(body)
}

/// The document serde_json decodes from `body`, or `None` when the bytes are
/// not one JSON document.
pub uninterp spec fn json_doc(body: Seq<u8>) -> Option<serde_json::Value>;

/// The member `key` of a JSON object; `None` for a missing key or a value
/// that is not an object.
pub uninterp spec fn json_member(v: serde_json::Value, key: Seq<char>) -> Option<serde_json::Value>;

/// The text of a JSON string; `None` for any other value.
pub uninterp spec fn json_str(v: serde_json::Value) -> Option<Seq<char>>;

/// The elements of a JSON array, in order; `None` for any other value.
pub uninterp spec fn json_elems(v: serde_json::Value) -> Option<Seq<serde_json::Value>>;

/// A JSON number that is an unsigned 64-bit integer; `None` for any other value.
pub uninterp spec fn json_u64(v: serde_json::Value) -> Option<u64>;

/// Relies on serde_json::from_slice::<Value>: a deterministic decoding of the
/// bytes into one JSON document.
#[verifier::external_body]
fn decode_value(body: &[u8]) -> (r: Result<serde_json::Value, serde_json::Error>)
    ensures
        r is Ok <==> json_doc(body@) is Some,
        r is Ok ==> json_doc(body@) == Some(r->Ok_0),
{
    serde_json::from_slice::<serde_json::Value>(body)
}

/// Relies on serde_json::Value::get with a string key: the member of an object.
#[verifier::external_body]
fn member<'a>(v: &'a serde_json::Value, key: &str) -> (r: Option<&'a serde_json::Value>)
    ensures
        r is Some <==> json_member(*v, key@) is Some,
        r is Some ==> json_member(*v, key@) == Some(*r->0),
{
    v.get(key)
}

/// Relies on serde_json::Value::as_str: the text of a JSON string.
#[verifier::external_body]
fn text_of(v: &serde_json::Value) -> (r: Option<String>)
    ensures
        r is Some <==> json_str(*v) is Some,
        r is Some ==> json_str(*v) == Some(r->0@),
{
    v.as_str().map(String::from)
}

/// Relies on serde_json::Value::as_array: the elements of a JSON array.
#[verifier::external_body]
fn elements_of<'a>(v: &'a serde_json::Value) -> (r: Option<&'a Vec<serde_json::Value>>)
    ensures
        r is Some <==> json_elems(*v) is Some,
        r is Some ==> json_elems(*v) == Some(r->0@),
{
    v.as_array()
}

/// Relies on serde_json::Value::as_u64: a JSON number that is an unsigned integer.
#[verifier::external_body]
fn unsigned_of(v: &serde_json::Value) -> (r: Option<u64>)
    ensures
        r == json_u64(*v),
{
    v.as_u64()
}

/// The text of an optional member when it is a JSON string.
pub open spec fn member_text(m: Option<serde_json::Value>) -> Option<Seq<char>> {
    match m {
        Some(x) => json_str(x),
        None => None,
    }
}

/// Whether every element is an unsigned integer.
pub open spec fn all_u64(es: Seq<serde_json::Value>) -> bool {
    forall|i: int| 0 <= i < es.len() ==> (#[trigger] json_u64(es[i])) is Some
}

/// The integers of elements that are all unsigned integers.
pub open spec fn u64s_of(es: Seq<serde_json::Value>) -> Seq<u64> {
    es.map_values(|e: serde_json::Value| json_u64(e)->0)
}

/// The comment identifiers of an optional `kids` member: present only when
/// it is an array of unsigned integers.
pub open spec fn member_ids(m: Option<serde_json::Value>) -> Option<Seq<u64>> {
    match m {
        Some(x) => match json_elems(x) {
            Some(es) => if all_u64(es) {
                Some(u64s_of(es))
            } else {
                None
            },
            None => None,
        },
        None => None,
    }
}

/// The view of an optional string.
pub open spec fn opt_text(o: Option<String>) -> Option<Seq<char>> {
    match o {
        Some(t) => Some(t@),
        None => None,
    }
}

/// The view of an optional list of identifiers.
pub open spec fn opt_ids(o: Option<Vec<u64>>) -> Option<Seq<u64>> {
    match o {
        Some(v) => Some(v@),
        None => None,
    }
}

/// Whether `s` is the story with identifier `id` read from document `d`.
pub open spec fn story_from_doc(s: Story, id: u64, d: serde_json::Value) -> bool {
    &&& s.id == id
    &&& opt_text(s.title) == member_text(json_member(d, "title"@))
    &&& opt_text(s.url) == member_text(json_member(d, "url"@))
    &&& opt_ids(s.kids) == member_ids(json_member(d, "kids"@))
}

/// The JSON text serde_json writes for a string holding `s`: quoted, with
/// the characters JSON requires escaped.
pub uninterp spec fn json_encoded(s: Seq<char>) -> Seq<char>;

/// Relies on serde_json's `Display` for `Value::String`: the compact JSON
/// text of the string.
#[verifier::external_body]
fn encode_text(s: &str) -> (r: String)
    ensures
        r@ == json_encoded(s@),
{
    serde_json::Value::from(s).to_string()
}

/// How a field is shown: a present text as a JSON string, an absent one as
/// `null`.
pub fn json_or_null(field: &Option<String>) -> (r: String)
    ensures
        match field {
            Some(t) => r@ == json_encoded(t@),
            None => r@ == seq!['n', 'u', 'l', 'l'],
        },
{
    match field {
        Some(t) => encode_text(t.as_str()),
        None => {
            let r = String::from_str("null");
            proof {
                reveal_strlit("null");
            }
            assert(r@ =~= seq!['n', 'u', 'l', 'l']);
            r
        },
    }
}

/// Decodes the top-stories listing: a JSON array of story identifiers.
pub fn parse_story_ids(body: &[u8]) -> (r: Result<Vec<u64>, RunError>)
    ensures
        r is Ok <==> json_u64_list(body@) is Some,
        r is Ok ==> json_u64_list(body@) == Some(r->Ok_0@),
        r is Err ==> r->Err_0 is Malformed,
{
    match decode_id_list(body) {
        Ok(v) => Ok(v),
        Err(e) => Err(RunError::Malformed(e.to_string())),
    }
}

/// Decodes one story's detail record. A `title` or `url` is kept when it is
/// a JSON string and absent otherwise; `kids` is kept when it is an array of
/// comment identifiers and absent otherwise. Only a body that is not JSON is
/// malformed.
pub fn parse_story(id: u64, body: &[u8]) -> (r: Result<Story, RunError>)
    ensures
        r is Ok <==> json_doc(body@) is Some,
        r is Ok ==> story_from_doc(r->Ok_0, id, json_doc(body@)->0),
        r is Err ==> r->Err_0 is Malformed,
{
    let v = match decode_value(body) {
        Ok(v) => v,
        Err(e) => {
            return Err(RunError::Malformed(e.to_string()));
        },
    };
    let title = match member(&v, "title") {
        Some(t) => text_of(t),
        None => None,
    };
    let url = match member(&v, "url") {
        Some(u) => text_of(u),
        None => None,
    };
    let kids = match member(&v, "kids") {
        None => None,
        Some(k) => match elements_of(k) {
            None => None,
            Some(items) => {
                let ghost es = items@;
                let mut ids: Vec<u64> = Vec::new();
                let mut i: usize = 0;
                let mut ok = true;
                while i < items.len() && ok
                    invariant
                        es == items@,
                        i <= es.len(),
                        ok ==> all_u64(es.take(i as int)),
                        ok ==> ids@ == u64s_of(es.take(i as int)),
                        !ok ==> !all_u64(es),
                    decreases es.len() - i + (if ok { 1int } else { 0int }),
                {
                    match unsigned_of(&items[i]) {
                        Some(c) => {
                            ids.push(c);
                            assert(es.take(i + 1) =~= es.take(i as int).push(es[i as int]));
                            assert(ids@ =~= u64s_of(es.take(i + 1)));
                            i = i + 1;
                        },
                        None => {
                            ok = false;
                        },
                    }
                }
                if ok {
                    assert(es.take(i as int) =~= es);
                    Some(ids)
                } else {
                    None
                }
            },
        },
    };
    Ok(Story { id, title, url, kids })
}

} // verus!
