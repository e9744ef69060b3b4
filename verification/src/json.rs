//! Trusted view of `serde_json`.  A parsed document is opaque to the
//! verifier; what the logic reads from it is modelled by three named
//! observers over key paths:
//!
//! - `json_has(v, p)`: following object members along the keys of `p`
//!   (the empty path lands on `v` itself) reaches a value;
//! - `json_str(v, p)`: the value reached along `p` is a JSON string with
//!   exactly these characters, `None` when the path is missing or the
//!   value is not a string;
//! - `json_int(v, p)`: the value reached along `p` is a JSON number held
//!   in one of the integer representations (a number with a fraction or
//!   exponent is held as floating point and has no integer value here),
//!   `None` when the path is missing or the value is no such number.
//!
//! Each wrapper below states, over these observers, no more than what the
//! `serde_json` source shows of the one call its body makes.

use vstd::prelude::*;

verus! {

#[verifier::external_type_specification]
#[verifier::external_body]
pub struct ExValue(serde_json::Value);

pub uninterp spec fn json_has(v: serde_json::Value, path: Seq<Seq<char>>) -> bool;

pub uninterp spec fn json_str(v: serde_json::Value, path: Seq<Seq<char>>) -> Option<Seq<char>>;

pub uninterp spec fn json_int(v: serde_json::Value, path: Seq<Seq<char>>) -> Option<int>;

/// The serialized text of a JSON value, a function of the value alone.
pub uninterp spec fn json_text_of(v: serde_json::Value) -> Seq<char>;

/// Whether the parser accepts this text as a JSON document.  Parsing is a
/// function of the text alone, so acceptance can be named.
pub uninterp spec fn json_parses(s: Seq<char>) -> bool;

/// `json_has` of the document parsed from this text.
pub uninterp spec fn json_doc_has(s: Seq<char>, path: Seq<Seq<char>>) -> bool;

/// `json_str` of the document parsed from this text.
pub uninterp spec fn json_doc_str(s: Seq<char>, path: Seq<Seq<char>>) -> Option<Seq<char>>;

/// `json_int` of the document parsed from this text.
pub uninterp spec fn json_doc_int(s: Seq<char>, path: Seq<Seq<char>>) -> Option<int>;

/// Relies on `serde_json::from_str::<Value>`: parses a JSON document, or
/// fails.  The parse is a function of the text alone: it succeeds exactly
/// on the texts `json_parses` names, and the parsed value's observers are
/// the text's.
#[verifier::external_body]
pub fn json_parse(s: &str) -> (r: Option<serde_json::Value>)
    ensures
        r is Some <==> json_parses(s@),
        r matches Some(v) ==> forall|p: Seq<Seq<char>>| json_has(v, p) == json_doc_has(s@, p),
        r matches Some(v) ==> forall|p: Seq<Seq<char>>| json_str(v, p) == json_doc_str(s@, p),
        r matches Some(v) ==> forall|p: Seq<Seq<char>>| json_int(v, p) == json_doc_int(s@, p),
{
    serde_json::from_str::<serde_json::Value>(s).ok()
}

/// Relies on `serde_json::Value::get`: the member of a JSON object under a
/// string key, `None` when the value is no object or the key is absent.
/// Paths through the member are paths of the parent with the key prefixed.
#[verifier::external_body]
pub fn json_get<'a>(v: &'a serde_json::Value, key: &str) -> (r: Option<&'a serde_json::Value>)
    ensures
        r is Some <==> json_has(*v, seq![key@]),
        r matches Some(w) ==> forall|p: Seq<Seq<char>>|
            json_has(*w, p) == json_has(*v, seq![key@] + p),
        r matches Some(w) ==> forall|p: Seq<Seq<char>>|
            json_str(*w, p) == json_str(*v, seq![key@] + p),
        r matches Some(w) ==> forall|p: Seq<Seq<char>>|
            json_int(*w, p) == json_int(*v, seq![key@] + p),
        r is None ==> forall|p: Seq<Seq<char>>| !json_has(*v, seq![key@] + p),
        r is None ==> forall|p: Seq<Seq<char>>| json_str(*v, seq![key@] + p) is None,
        r is None ==> forall|p: Seq<Seq<char>>| json_int(*v, seq![key@] + p) is None,
{
    v.get(key)
}

/// Relies on `serde_json::Value::as_str`: the characters of a JSON string
/// value, `None` when the value is not a string.
#[verifier::external_body]
pub fn json_as_str(v: &serde_json::Value) -> (r: Option<String>)
    ensures
        crate::ledger::opt_view(r) == json_str(*v, Seq::<Seq<char>>::empty()),
{
    v.as_str().map(|s| s.to_string())
}

/// Relies on `serde_json::Value::as_i64`: the value of an integer JSON
/// number when it is representable as an `i64`; an integer above
/// `i64::MAX` (stored unsigned) yields `None`.
#[verifier::external_body]
pub fn json_as_i64(v: &serde_json::Value) -> (r: Option<i64>)
    ensures
        r matches Some(n) ==> json_int(*v, Seq::<Seq<char>>::empty()) == Some(n as int),
        r is None ==> match json_int(*v, Seq::<Seq<char>>::empty()) {
            None => true,
            Some(n) => n > i64::MAX,
        },
{
    v.as_i64()
}

/// Relies on `serde_json::to_string`: serializes a JSON value; on a
/// `Value` the result depends on the value alone (object members are kept
/// in the deterministic order of the underlying map).
#[verifier::external_body]
pub fn json_to_text(v: &serde_json::Value) -> (r: Option<String>)
    ensures
        r matches Some(s) ==> s@ == json_text_of(*v),
{
    serde_json::to_string(v).ok()
}

} // verus!
