//! The socket protocol's text frames: the payment-update and
//! subscription-confirmation messages the server sends, each specified
//! character for character, and the subscribe frame a client sends.

use vstd::prelude::*;
use vstd::string::StringExecFns;

use crate::json::{json_doc_str, json_parse, json_parses, json_str};
use crate::ledger::opt_view;
use crate::text::{append_json_escaped, dec_i64, push_char, spec_dec_int, spec_json_escape};
use crate::webhook::top_str;

verus! {

/// The JSON string literal holding exactly the characters of `s`.
pub open spec fn spec_json_string(s: Seq<char>) -> Seq<char> {
    seq!['"'] + spec_json_escape(s) + seq!['"']
}

/// An optional string member: a JSON string literal or `null`.
pub open spec fn spec_json_opt_string(o: Option<Seq<char>>) -> Seq<char> {
    match o {
        None => "null"@,
        Some(s) => spec_json_string(s),
    }
}

/// An optional number member: decimal digits or `null`.
pub open spec fn spec_json_opt_int(o: Option<int>) -> Seq<char> {
    match o {
        None => "null"@,
        Some(n) => spec_dec_int(n),
    }
}

/// The view of an optional amount.
pub open spec fn opt_int_view(o: Option<i64>) -> Option<int> {
    match o {
        None => None,
        Some(n) => Some(n as int),
    }
}

/// The payment-update message, member for member.
pub open spec fn spec_update_message(
    tx: Seq<char>,
    status: Seq<char>,
    amount: Option<int>,
    currency: Option<Seq<char>>,
    timestamp: Seq<char>,
    subscriber: Option<Seq<char>>,
    frontend: Option<Seq<char>>,
) -> Seq<char> {
    "{\"type\":\"payment_update\",\"transaction_id\":"@ + spec_json_string(tx) + ",\"status\":"@
        + spec_json_string(status) + ",\"amount\":"@ + spec_json_opt_int(amount) + ",\"currency\":"@
        + spec_json_opt_string(currency) + ",\"timestamp\":"@ + spec_json_string(timestamp)
        + ",\"subscriber_id\":"@ + spec_json_opt_string(subscriber) + ",\"frontend_id\":"@
        + spec_json_opt_string(frontend) + "}"@
}

/// The subscription-confirmation message.
pub open spec fn spec_confirmation_message(tx: Seq<char>) -> Seq<char> {
    "{\"type\":\"subscription_confirmed\",\"transaction_id\":"@ + spec_json_string(tx) + "}"@
}

/// Appends the JSON string literal for `s`.
fn append_json_string(out: &mut String, s: &str)
    ensures
        final(out)@ == old(out)@ + spec_json_string(s@),
{
    push_char(out, '"');
    append_json_escaped(out, s);
    push_char(out, '"');
    proof {
        assert(out@ =~= old(out)@ + spec_json_string(s@));
    }
}

/// Appends an optional string member.
fn append_opt_string(out: &mut String, o: Option<&String>)
    ensures
        final(out)@ == old(out)@ + spec_json_opt_string(crate::ledger::opt_ref_view(o)),
{
    match o {
        None => {
            out.append("null");
        },
        Some(s) => {
            append_json_string(out, s.as_str());
        },
    }
}

/// Appends an optional number member.
fn append_opt_int(out: &mut String, o: Option<i64>)
    ensures
        final(out)@ == old(out)@ + spec_json_opt_int(opt_int_view(o)),
{
    match o {
        None => {
            out.append("null");
        },
        Some(n) => {
            let digits = dec_i64(n);
            out.append(digits.as_str());
        },
    }
}

/// Builds the payment-update message for one verified event.
pub fn build_update_message(
    tx: &str,
    status: &str,
    amount: Option<i64>,
    currency: Option<&String>,
    timestamp: &str,
    subscriber: Option<&String>,
    frontend: Option<&String>,
) -> (m: String)
    ensures
        m@ == spec_update_message(
            tx@,
            status@,
            opt_int_view(amount),
            crate::ledger::opt_ref_view(currency),
            timestamp@,
            crate::ledger::opt_ref_view(subscriber),
            crate::ledger::opt_ref_view(frontend),
        ),
{
    let mut m = String::new();
    m.append("{\"type\":\"payment_update\",\"transaction_id\":");
    append_json_string(&mut m, tx);
    m.append(",\"status\":");
    append_json_string(&mut m, status);
    m.append(",\"amount\":");
    append_opt_int(&mut m, amount);
    m.append(",\"currency\":");
    append_opt_string(&mut m, currency);
    m.append(",\"timestamp\":");
    append_json_string(&mut m, timestamp);
    m.append(",\"subscriber_id\":");
    append_opt_string(&mut m, subscriber);
    m.append(",\"frontend_id\":");
    append_opt_string(&mut m, frontend);
    m.append("}");
    proof {
        assert(m@ =~= spec_update_message(
            tx@,
            status@,
            opt_int_view(amount),
            crate::ledger::opt_ref_view(currency),
            timestamp@,
            crate::ledger::opt_ref_view(subscriber),
            crate::ledger::opt_ref_view(frontend),
        ));
    }
    m
}

/// Builds the subscription-confirmation message.
pub fn build_confirmation(tx: &str) -> (m: String)
    ensures
        m@ == spec_confirmation_message(tx@),
{
    let mut m = String::new();
    m.append("{\"type\":\"subscription_confirmed\",\"transaction_id\":");
    append_json_string(&mut m, tx);
    m.append("}");
    proof {
        assert(m@ =~= spec_confirmation_message(tx@));
    }
    m
}

/// A well-formed subscribe request from a client.
pub struct SubscribeFrame {
    pub transaction_id: String,
    pub subscriber_id: Option<String>,
    pub subscriber_contact: Option<String>,
}

/// What a decoded subscribe frame holds of the document it came from.
pub open spec fn frame_ok(v: serde_json::Value, f: SubscribeFrame) -> bool {
    &&& json_str(v, seq!["type"@]) == Some("subscribe"@)
    &&& json_str(v, seq!["transaction_id"@]) == Some(f.transaction_id@)
    &&& opt_view(f.subscriber_id) == json_str(v, seq!["subscriber_id"@])
    &&& opt_view(f.subscriber_contact) == json_str(v, seq!["subscriber_contact"@])
}

/// When a document is no subscribe frame: wrong or missing type tag, or
/// no transaction id.
pub open spec fn frame_fails(v: serde_json::Value) -> bool {
    json_str(v, seq!["type"@]) != Some("subscribe"@) || json_str(v, seq!["transaction_id"@])
        is None
}

/// Decodes a subscribe frame from a parsed client document; anything else
/// is dropped in silence (a malformed frame never ends the session).
pub fn frame_of(v: &serde_json::Value) -> (r: Option<SubscribeFrame>)
    ensures
        r matches Some(f) ==> frame_ok(*v, f) && !frame_fails(*v),
        r is None ==> frame_fails(*v),
{
    let ty = match top_str(v, "type") {
        None => {
            return None;
        },
        Some(t) => t,
    };
    if !(ty == String::from_str("subscribe")) {
        return None;
    }
    let transaction_id = match top_str(v, "transaction_id") {
        None => {
            return None;
        },
        Some(t) => t,
    };
    let subscriber_id = top_str(v, "subscriber_id");
    let subscriber_contact = top_str(v, "subscriber_contact");
    Some(SubscribeFrame { transaction_id, subscriber_id, subscriber_contact })
}

/// `frame_ok`, read off the raw frame text through the parse observers.
pub open spec fn text_frame_ok(s: Seq<char>, f: SubscribeFrame) -> bool {
    &&& json_doc_str(s, seq!["type"@]) == Some("subscribe"@)
    &&& json_doc_str(s, seq!["transaction_id"@]) == Some(f.transaction_id@)
    &&& opt_view(f.subscriber_id) == json_doc_str(s, seq!["subscriber_id"@])
    &&& opt_view(f.subscriber_contact) == json_doc_str(s, seq!["subscriber_contact"@])
}

/// When a text is no subscribe frame: it does not parse as JSON, its type
/// tag is not `subscribe`, or it names no transaction id.
pub open spec fn text_frame_fails(s: Seq<char>) -> bool {
    ||| !json_parses(s)
    ||| json_doc_str(s, seq!["type"@]) != Some("subscribe"@)
    ||| json_doc_str(s, seq!["transaction_id"@]) is None
}

/// Parses a client text frame and decodes it as a subscribe request:
/// exactly the texts that parse as JSON and carry a subscribe frame yield
/// one, member for member as `text_frame_ok` says; every other frame is
/// dropped in silence (it never ends the session).
pub fn parse_subscribe_text(text: &str) -> (r: Option<SubscribeFrame>)
    ensures
        r matches Some(f) ==> json_parses(text@) && text_frame_ok(text@, f),
        r is None <==> text_frame_fails(text@),
{
    match json_parse(text) {
        None => None,
        Some(doc) => {
            let r = frame_of(&doc);
            proof {
                assert(json_str(doc, seq!["type"@]) == json_doc_str(text@, seq!["type"@]));
                assert(json_str(doc, seq!["transaction_id"@]) == json_doc_str(text@, seq![
                    "transaction_id"@,
                ]));
                assert(json_str(doc, seq!["subscriber_id"@]) == json_doc_str(text@, seq![
                    "subscriber_id"@,
                ]));
                assert(json_str(doc, seq!["subscriber_contact"@]) == json_doc_str(text@, seq![
                    "subscriber_contact"@,
                ]));
            }
            r
        },
    }
}

} // verus!
