//! Event verifier: authenticates an inbound webhook call against the
//! shared secret and decodes the body into a typed event.
//!
//! The signature header carries comma-separated `key=value` pairs: a unix
//! timestamp under `t` and a lower-case hex HMAC-SHA256 of
//! `"{t}.{payload}"` under `v1` (of repeated keys the last wins).  A call
//! is authentic when the timestamp is within the tolerance of the current
//! time and the `v1` digest equals the one computed with the secret.

use hmac::Mac;
use vstd::prelude::*;
use vstd::string::StrSliceExecFns;
use vstd::string::StringExecFns;

use crate::events::{classify, is_lifecycle, spec_classify, spec_is_lifecycle, VerifiedEvent};
use crate::json::{json_as_i64, json_as_str, json_doc_has, json_doc_int, json_doc_str, json_get,
    json_has, json_int, json_parse, json_parses, json_str, json_to_text};
use crate::ledger::opt_view;
use crate::text::{push_char, spec_hex_digit};

verus! {

/// Why a webhook call was rejected; any of these answers the caller with
/// the unauthenticated-failure response and stops processing.
pub enum VerificationError {
    MissingSignature,
    InvalidSignature,
    MalformedPayload,
}

/// Allowed distance, in seconds, between the header timestamp and the
/// clock.
pub const SIGNATURE_TOLERANCE: i64 = 300;

/// Index of the first occurrence of `c`, or `-1`.
pub open spec fn spec_find(s: Seq<char>, c: char) -> int
    decreases s.len(),
{
    if s.len() == 0 {
        -1
    } else if s[0] == c {
        0
    } else {
        let r = spec_find(s.drop_first(), c);
        if r == -1 {
            -1
        } else {
            r + 1
        }
    }
}

proof fn lemma_spec_find_props(s: Seq<char>, c: char)
    ensures
        -1 <= spec_find(s, c) < s.len(),
        spec_find(s, c) >= 0 ==> s[spec_find(s, c)] == c,
        spec_find(s, c) >= 0 ==> forall|j: int| 0 <= j < spec_find(s, c) ==> s[j] != c,
        spec_find(s, c) == -1 ==> forall|j: int| 0 <= j < s.len() ==> s[j] != c,
    decreases s.len(),
{
    if s.len() == 0 {
    } else if s[0] == c {
    } else {
        lemma_spec_find_props(s.drop_first(), c);
        assert forall|j: int| 1 <= j < s.len() implies s.drop_first()[j - 1] == s[j] by {}
    }
}

proof fn lemma_spec_find_first(s: Seq<char>, c: char, i: int)
    requires
        0 <= i < s.len(),
        s[i] == c,
        forall|j: int| 0 <= j < i ==> s[j] != c,
    ensures
        spec_find(s, c) == i,
    decreases s.len(),
{
    if i == 0 {
    } else {
        assert(s.drop_first()[i - 1] == s[i]);
        assert forall|j: int| 0 <= j < i - 1 implies s.drop_first()[j] != c by {
            assert(s.drop_first()[j] == s[j + 1]);
        }
        lemma_spec_find_first(s.drop_first(), c, i - 1);
    }
}

/// Index of the first occurrence of `c` in `s`.
fn find_char(s: &str, c: char) -> (r: Option<usize>)
    ensures
        match r {
            Some(i) => i < s@.len() && spec_find(s@, c) == i as int,
            None => spec_find(s@, c) == -1,
        },
{
    let n = s.unicode_len();
    let mut j: usize = 0;
    while j < n
        invariant
            n == s@.len(),
            j <= n,
            forall|k: int| 0 <= k < j ==> s@[k] != c,
        decreases n - j,
    {
        if s.get_char(j) == c {
            proof {
                lemma_spec_find_first(s@, c, j as int);
            }
            return Some(j);
        }
        j = j + 1;
    }
    proof {
        lemma_spec_find_props(s@, c);
    }
    None
}

/// The `key=value` pairs of a comma-separated header, in order; a piece
/// without `=` contributes nothing.
pub open spec fn spec_pairs(s: Seq<char>) -> Seq<(Seq<char>, Seq<char>)>
    decreases s.len(),
    via spec_pairs_decreases
{
    let ce = spec_find(s, ',');
    let piece = if ce < 0 {
        s
    } else {
        s.take(ce)
    };
    let rest = if ce < 0 {
        Seq::<(Seq<char>, Seq<char>)>::empty()
    } else {
        spec_pairs(s.skip(ce + 1))
    };
    let eq = spec_find(piece, '=');
    (if eq < 0 {
        Seq::<(Seq<char>, Seq<char>)>::empty()
    } else {
        seq![(piece.take(eq), piece.skip(eq + 1))]
    }) + rest
}

#[via_fn]
proof fn spec_pairs_decreases(s: Seq<char>) {
    lemma_spec_find_props(s, ',');
}

/// Parses a comma-separated header into its `key=value` pairs.
fn parse_pairs(s: &str) -> (r: Vec<(String, String)>)
    ensures
        r.deep_view() == spec_pairs(s@),
    decreases s@.len(),
{
    let n = s.unicode_len();
    let ce = find_char(s, ',');
    let piece = match ce {
        Some(i) => s.substring_char(0, i),
        None => s,
    };
    proof {
        lemma_spec_find_props(s@, ',');
        if ce is Some {
            assert(piece@ == s@.take(spec_find(s@, ',')));
        } else {
            assert(piece@ == s@);
        }
    }
    let mut out: Vec<(String, String)> = Vec::new();
    let eq = find_char(piece, '=');
    proof {
        lemma_spec_find_props(piece@, '=');
    }
    match eq {
        Some(i) => {
            let pn = piece.unicode_len();
            let key = piece.substring_char(0, i);
            let val = piece.substring_char(i + 1, pn);
            out.push((key.to_owned(), val.to_owned()));
        },
        None => {},
    }
    match ce {
        Some(i) => {
            let rest = s.substring_char(i + 1, n);
            let mut tail = parse_pairs(rest);
            out.append(&mut tail);
        },
        None => {},
    }
    proof {
        assert(out.deep_view() =~= spec_pairs(s@));
    }
    out
}

/// The value of the last pair carrying `key`, if any (of repeated keys the
/// last wins).
pub open spec fn spec_last_value(pairs: Seq<(Seq<char>, Seq<char>)>, key: Seq<char>) -> Option<
    Seq<char>,
>
    decreases pairs.len(),
{
    if pairs.len() == 0 {
        None
    } else if pairs.last().0 == key {
        Some(pairs.last().1)
    } else {
        spec_last_value(pairs.drop_last(), key)
    }
}

/// The value under `key` of the last pair carrying it.
fn last_value(pairs: &Vec<(String, String)>, key: &str) -> (r: Option<String>)
    ensures
        opt_view(r) == spec_last_value(pairs.deep_view(), key@),
{
    let mut j = pairs.len();
    proof {
        assert(pairs.deep_view().take(j as int) =~= pairs.deep_view());
    }
    while j > 0
        invariant
            j <= pairs@.len(),
            spec_last_value(pairs.deep_view(), key@) == spec_last_value(
                pairs.deep_view().take(j as int),
                key@,
            ),
        decreases j,
    {
        let ghost taken = pairs.deep_view().take(j as int);
        proof {
            assert(taken.len() == j);
            assert(taken.last() == pairs.deep_view()[j - 1]);
            assert(taken.drop_last() =~= pairs.deep_view().take(j - 1));
        }
        if crate::events::str_eq(pairs[j - 1].0.as_str(), key) {
            let found = pairs[j - 1].1.clone();
            proof {
                assert(pairs.deep_view()[j - 1] == (pairs@[j - 1].0@, pairs@[j - 1].1@));
            }
            return Some(found);
        }
        j = j - 1;
    }
    proof {
        assert(pairs.deep_view().take(0) =~= Seq::<(Seq<char>, Seq<char>)>::empty());
    }
    None
}

/// Powers of ten.
pub open spec fn pow10(n: nat) -> int
    decreases n,
{
    if n == 0 {
        1
    } else {
        10 * pow10((n - 1) as nat)
    }
}

/// Whether every character is a decimal digit.
pub open spec fn spec_all_digits(s: Seq<char>) -> bool {
    forall|i: int| 0 <= i < s.len() ==> '0' <= #[trigger] s[i] <= '9'
}

/// The value of a decimal digit string.
pub open spec fn spec_digits_val(s: Seq<char>) -> int
    decreases s.len(),
{
    if s.len() == 0 {
        0
    } else {
        spec_digits_val(s.drop_last()) * 10 + (s.last() as int - 48)
    }
}

/// A header timestamp: one to eighteen decimal digits (longer ones are
/// rejected outright; they lie far outside any plausible clock anyway).
pub open spec fn spec_parse_ts(s: Seq<char>) -> Option<int> {
    if 1 <= s.len() <= 18 && spec_all_digits(s) {
        Some(spec_digits_val(s))
    } else {
        None
    }
}

proof fn lemma_digits_val_bound(s: Seq<char>)
    requires
        spec_all_digits(s),
    ensures
        0 <= spec_digits_val(s) < pow10(s.len()),
    decreases s.len(),
{
    if s.len() == 0 {
    } else {
        assert forall|i: int| 0 <= i < s.drop_last().len() implies '0' <= #[trigger] s.drop_last()[i]
            <= '9' by {
            assert(s.drop_last()[i] == s[i]);
        }
        lemma_digits_val_bound(s.drop_last());
        assert(s.last() as int - 48 <= 9);
        assert(pow10(s.len()) == 10 * pow10((s.len() - 1) as nat));
    }
}

/// Parses a digit-only timestamp of at most eighteen digits.
fn parse_ts(s: &str) -> (r: Option<i64>)
    ensures
        match r {
            Some(v) => spec_parse_ts(s@) == Some(v as int),
            None => spec_parse_ts(s@) is None,
        },
{
    let n = s.unicode_len();
    if n == 0 || n > 18 {
        return None;
    }
    let mut acc: i64 = 0;
    let mut j: usize = 0;
    while j < n
        invariant
            n == s@.len(),
            1 <= n <= 18,
            j <= n,
            spec_all_digits(s@.take(j as int)),
            acc == spec_digits_val(s@.take(j as int)),
            0 <= acc < pow10(j as nat),
        decreases n - j,
    {
        let c = s.get_char(j);
        if !('0' <= c && c <= '9') {
            proof {
                assert(s@.take(j as int + 1)[j as int] == c);
                assert(!spec_all_digits(s@));
            }
            return None;
        }
        let d: i64 = (c as u32 as i64) - 48;
        proof {
            reveal_with_fuel(pow10, 19);
            assert(pow10(j as nat) <= pow10(17));
            lemma_pow10_mono(j as nat, 17);
            assert(acc * 10 + d < pow10(j as nat + 1)) by {
                assert(acc <= pow10(j as nat) - 1);
                assert(acc * 10 <= (pow10(j as nat) - 1) * 10) by (nonlinear_arith)
                    requires
                        acc <= pow10(j as nat) - 1,
                        pow10(j as nat) >= 1,
                ;
            }
        }
        acc = acc * 10 + d;
        proof {
            assert(s@.take(j as int + 1).drop_last() =~= s@.take(j as int));
            assert(s@.take(j as int + 1).last() == c);
            assert(spec_all_digits(s@.take(j as int + 1)));
        }
        j = j + 1;
    }
    proof {
        assert(s@.take(n as int) =~= s@);
    }
    Some(acc)
}

proof fn lemma_pow10_mono(a: nat, b: nat)
    requires
        a <= b,
    ensures
        pow10(a) <= pow10(b),
        pow10(a) >= 1,
    decreases b,
{
    if a == b {
        lemma_pow10_pos(a);
    } else {
        lemma_pow10_mono(a, (b - 1) as nat);
    }
}

proof fn lemma_pow10_pos(a: nat)
    ensures
        pow10(a) >= 1,
    decreases a,
{
    if a > 0 {
        lemma_pow10_pos((a - 1) as nat);
    }
}

/// The name of the digest this verifier relies on: HMAC-SHA256 of the
/// UTF-8 bytes of `msg` keyed by the UTF-8 bytes of `key`.
pub uninterp spec fn hmac_sha256_of(key: Seq<char>, msg: Seq<char>) -> Seq<u8>;

/// Relies on the `hmac` and `sha2` crates: computes HMAC-SHA256 of `msg`
/// keyed by `secret` (any key length is accepted), a 32-byte digest that
/// is a function of the two arguments alone.
#[verifier::external_body]
fn hmac_sha256(secret: &str, msg: &str) -> (r: Vec<u8>)
    ensures
        r@ == hmac_sha256_of(secret@, msg@),
        r@.len() == 32,
{
    let mut mac = hmac::Hmac::<sha2::Sha256>::new_from_slice(secret.as_bytes())
        .expect("HMAC accepts any key length");
    mac.update(msg.as_bytes());
    mac.finalize().into_bytes().to_vec()
}

/// Whether `sig` is exactly the lower-case hex encoding of `mac`.
pub open spec fn spec_hex_matches(sig: Seq<char>, mac: Seq<u8>) -> bool {
    sig.len() == 2 * mac.len() && forall|i: int|
        0 <= i < mac.len() ==> sig[2 * i] == spec_hex_digit((mac[i] / 16) as nat) && sig[2 * i + 1]
            == spec_hex_digit((mac[i] % 16) as nat)
}

/// Compares a claimed hex signature against a digest.
fn hex_matches(sig: &str, mac: &Vec<u8>) -> (r: bool)
    ensures
        r == spec_hex_matches(sig@, mac@),
{
    let n = mac.len();
    let sn = sig.unicode_len();
    if n > usize::MAX / 2 {
        proof {
            assert(2 * mac@.len() > sn);
        }
        return false;
    }
    if sn != 2 * n {
        return false;
    }
    let mut j: usize = 0;
    while j < n
        invariant
            n == mac@.len(),
            sn == sig@.len(),
            sn == 2 * n,
            j <= n,
            forall|i: int|
                0 <= i < j ==> sig@[2 * i] == spec_hex_digit((mac@[i] / 16) as nat) && sig@[2 * i
                    + 1] == spec_hex_digit((mac@[i] % 16) as nat),
        decreases n - j,
    {
        let b = mac[j];
        let hi = sig.get_char(2 * j);
        let lo = sig.get_char(2 * j + 1);
        if !(hi == hex_char(b / 16) && lo == hex_char(b % 16)) {
            return false;
        }
        j = j + 1;
    }
    true
}

fn hex_char(n: u8) -> (c: char)
    requires
        n < 16,
    ensures
        c == spec_hex_digit(n as nat),
{
    if n < 10 {
        ((n + 48) as u8) as char
    } else {
        ((n + 87) as u8) as char
    }
}

/// Whether the signature header authenticates the payload with the secret
/// at time `now`: a timestamp `t` within the tolerance, and a last `v1`
/// pair holding the lower-case hex HMAC-SHA256 of `"{t}.{payload}"`.
pub open spec fn spec_sig_ok(h: Seq<char>, payload: Seq<char>, secret: Seq<char>, now: int) -> bool {
    let pairs = spec_pairs(h);
    match spec_last_value(pairs, "t"@) {
        None => false,
        Some(ts) => match spec_parse_ts(ts) {
            None => false,
            Some(t) => {
                &&& now - SIGNATURE_TOLERANCE <= t <= now + SIGNATURE_TOLERANCE
                &&& match spec_last_value(pairs, "v1"@) {
                    None => false,
                    Some(sig) => spec_hex_matches(
                        sig,
                        hmac_sha256_of(secret, ts + seq!['.'] + payload),
                    ),
                }
            },
        },
    }
}

/// Authenticates a webhook call: absent header, unparsable header, stale
/// timestamp and digest mismatch are each rejected exactly as
/// `spec_sig_ok` says.
pub fn check_signature(payload: &str, header: Option<&String>, secret: &str, now: i64) -> (r:
    Result<(), VerificationError>)
    ensures
        match header {
            None => r == Err::<(), VerificationError>(VerificationError::MissingSignature),
            Some(h) => if spec_sig_ok(h@, payload@, secret@, now as int) {
                r is Ok
            } else {
                r == Err::<(), VerificationError>(VerificationError::InvalidSignature)
            },
        },
{
    let h = match header {
        None => {
            return Err(VerificationError::MissingSignature);
        },
        Some(h) => h,
    };
    let pairs = parse_pairs(h.as_str());
    let ts = match last_value(&pairs, "t") {
        None => {
            return Err(VerificationError::InvalidSignature);
        },
        Some(ts) => ts,
    };
    let t = match parse_ts(ts.as_str()) {
        None => {
            return Err(VerificationError::InvalidSignature);
        },
        Some(t) => t,
    };
    let wide_t: i128 = t as i128;
    let wide_now: i128 = now as i128;
    let wide_tol: i128 = SIGNATURE_TOLERANCE as i128;
    if !(wide_now - wide_tol <= wide_t && wide_t <= wide_now + wide_tol) {
        return Err(VerificationError::InvalidSignature);
    }
    let sig = match last_value(&pairs, "v1") {
        None => {
            return Err(VerificationError::InvalidSignature);
        },
        Some(sig) => sig,
    };
    let ghost tsv = ts@;
    let mut msg = ts;
    push_char(&mut msg, '.');
    msg.append(payload);
    proof {
        assert(msg@ =~= tsv + seq!['.'] + payload@);
    }
    let mac = hmac_sha256(secret, msg.as_str());
    if hex_matches(sig.as_str(), &mac) {
        Ok(())
    } else {
        Err(VerificationError::InvalidSignature)
    }
}

/// Key path of the event-type string.
pub open spec fn type_path() -> Seq<Seq<char>> {
    seq!["type"@]
}

/// Key path of the transaction id.
pub open spec fn id_path() -> Seq<Seq<char>> {
    seq!["data"@, "object"@, "id"@]
}

/// Key path of the amount in minor units.
pub open spec fn amount_path() -> Seq<Seq<char>> {
    seq!["data"@, "object"@, "amount"@]
}

/// Key path of the currency code.
pub open spec fn currency_path() -> Seq<Seq<char>> {
    seq!["data"@, "object"@, "currency"@]
}

/// Key path of the subscriber identity when it is a plain string.
pub open spec fn customer_path() -> Seq<Seq<char>> {
    seq!["data"@, "object"@, "customer"@]
}

/// Key path of the subscriber identity when it arrives expanded.
pub open spec fn customer_id_path() -> Seq<Seq<char>> {
    seq!["data"@, "object"@, "customer"@, "id"@]
}

/// Key path of the frontend identifier inside the metadata document.
pub open spec fn frontend_path() -> Seq<Seq<char>> {
    seq!["data"@, "object"@, "metadata"@, "frontend_id"@]
}

/// Key path of the metadata document.
pub open spec fn metadata_path() -> Seq<Seq<char>> {
    seq!["data"@, "object"@, "metadata"@]
}

/// Descends to the event's payload object (`data.object`); paths through
/// it are paths of the document with those two keys prefixed.
fn get_object<'a>(v: &'a serde_json::Value) -> (r: Option<&'a serde_json::Value>)
    ensures
        r matches Some(w) ==> forall|p: Seq<Seq<char>>|
            json_str(*w, p) == json_str(*v, seq!["data"@, "object"@] + p),
        r matches Some(w) ==> forall|p: Seq<Seq<char>>|
            json_int(*w, p) == json_int(*v, seq!["data"@, "object"@] + p),
        r matches Some(w) ==> forall|p: Seq<Seq<char>>|
            json_has(*w, p) == json_has(*v, seq!["data"@, "object"@] + p),
        r is None ==> forall|p: Seq<Seq<char>>| json_str(*v, seq!["data"@, "object"@] + p) is None,
        r is None ==> forall|p: Seq<Seq<char>>| json_int(*v, seq!["data"@, "object"@] + p) is None,
        r is None ==> forall|p: Seq<Seq<char>>| !json_has(*v, seq!["data"@, "object"@] + p),
{
    let w1 = match json_get(v, "data") {
        None => {
            proof {
                assert forall|p: Seq<Seq<char>>| json_str(*v, seq!["data"@, "object"@] + p)
                    is None && json_int(*v, seq!["data"@, "object"@] + p) is None && !json_has(
                    *v,
                    seq!["data"@, "object"@] + p,
                ) by {
                    assert(seq!["data"@] + (seq!["object"@] + p) =~= seq!["data"@, "object"@] + p);
                }
            }
            return None;
        },
        Some(w) => w,
    };
    match json_get(w1, "object") {
        None => {
            proof {
                assert forall|p: Seq<Seq<char>>| json_str(*v, seq!["data"@, "object"@] + p)
                    is None && json_int(*v, seq!["data"@, "object"@] + p) is None && !json_has(
                    *v,
                    seq!["data"@, "object"@] + p,
                ) by {
                    assert(seq!["data"@] + (seq!["object"@] + p) =~= seq!["data"@, "object"@] + p);
                    assert(json_str(*w1, seq!["object"@] + p) is None);
                    assert(json_int(*w1, seq!["object"@] + p) is None);
                    assert(!json_has(*w1, seq!["object"@] + p));
                }
            }
            None
        },
        Some(w2) => {
            proof {
                assert forall|p: Seq<Seq<char>>| json_str(*w2, p) == json_str(
                    *v,
                    seq!["data"@, "object"@] + p,
                ) && json_int(*w2, p) == json_int(*v, seq!["data"@, "object"@] + p) && json_has(
                    *w2,
                    p,
                ) == json_has(*v, seq!["data"@, "object"@] + p) by {
                    assert(seq!["data"@] + (seq!["object"@] + p) =~= seq!["data"@, "object"@] + p);
                    assert(json_str(*w2, p) == json_str(*w1, seq!["object"@] + p));
                    assert(json_int(*w2, p) == json_int(*w1, seq!["object"@] + p));
                    assert(json_has(*w2, p) == json_has(*w1, seq!["object"@] + p));
                }
            }
            Some(w2)
        },
    }
}

/// The string member `key` of the document's top level.
pub fn top_str(v: &serde_json::Value, key: &str) -> (r: Option<String>)
    ensures
        opt_view(r) == json_str(*v, seq![key@]),
{
    match json_get(v, key) {
        None => {
            proof {
                assert(seq![key@] + Seq::<Seq<char>>::empty() =~= seq![key@]);
            }
            None
        },
        Some(w) => {
            let s = json_as_str(w);
            proof {
                assert(seq![key@] + Seq::<Seq<char>>::empty() =~= seq![key@]);
                assert(json_str(*w, Seq::<Seq<char>>::empty()) == json_str(*v, seq![key@]));
            }
            s
        },
    }
}

/// The string member `key` of the event's payload object.
fn obj_str(v: &serde_json::Value, key: &str) -> (r: Option<String>)
    ensures
        opt_view(r) == json_str(*v, seq!["data"@, "object"@, key@]),
{
    proof {
        assert(seq!["data"@, "object"@] + seq![key@] =~= seq!["data"@, "object"@, key@]);
    }
    match get_object(v) {
        None => None,
        Some(w) => {
            let r = top_str(w, key);
            proof {
                assert(json_str(*w, seq![key@]) == json_str(*v, seq!["data"@, "object"@] + seq![
                    key@,
                ]));
            }
            r
        },
    }
}

/// The integer member `amount` of the event's payload object, when it is
/// representable.
fn obj_amount(v: &serde_json::Value) -> (r: Option<i64>)
    ensures
        r matches Some(n) ==> json_int(*v, amount_path()) == Some(n as int),
        r is None ==> match json_int(*v, amount_path()) {
            None => true,
            Some(n) => n > i64::MAX,
        },
{
    proof {
        assert(seq!["data"@, "object"@] + seq!["amount"@] =~= amount_path());
        assert(seq!["amount"@] + Seq::<Seq<char>>::empty() =~= seq!["amount"@]);
    }
    match get_object(v) {
        None => None,
        Some(w) => match json_get(w, "amount") {
            None => {
                proof {
                    assert(json_int(*w, seq!["amount"@]) is None);
                }
                None
            },
            Some(a) => {
                let r = json_as_i64(a);
                proof {
                    assert(json_int(*a, Seq::<Seq<char>>::empty()) == json_int(*w, seq![
                        "amount"@,
                    ]));
                }
                r
            },
        },
    }
}

/// The subscriber identity under the expanded form `customer.id`.
fn customer_id_str(v: &serde_json::Value) -> (r: Option<String>)
    ensures
        opt_view(r) == json_str(*v, customer_id_path()),
{
    proof {
        assert(seq!["data"@, "object"@] + seq!["customer"@, "id"@] =~= customer_id_path());
        assert(seq!["customer"@] + seq!["id"@] =~= seq!["customer"@, "id"@]);
    }
    match get_object(v) {
        None => None,
        Some(w) => match json_get(w, "customer") {
            None => {
                proof {
                    assert(json_str(*w, seq!["customer"@] + seq!["id"@]) is None);
                }
                None
            },
            Some(c) => {
                let r = top_str(c, "id");
                proof {
                    assert(json_str(*c, seq!["id"@]) == json_str(*w, seq!["customer"@] + seq![
                        "id"@,
                    ]));
                }
                r
            },
        },
    }
}

/// The frontend identifier under `metadata.frontend_id`.
fn frontend_str(v: &serde_json::Value) -> (r: Option<String>)
    ensures
        opt_view(r) == json_str(*v, frontend_path()),
{
    proof {
        assert(seq!["data"@, "object"@] + seq!["metadata"@, "frontend_id"@] =~= frontend_path());
        assert(seq!["metadata"@] + seq!["frontend_id"@] =~= seq!["metadata"@, "frontend_id"@]);
    }
    match get_object(v) {
        None => None,
        Some(w) => match json_get(w, "metadata") {
            None => {
                proof {
                    assert(json_str(*w, seq!["metadata"@] + seq!["frontend_id"@]) is None);
                }
                None
            },
            Some(m) => {
                let r = top_str(m, "frontend_id");
                proof {
                    assert(json_str(*m, seq!["frontend_id"@]) == json_str(*w, seq!["metadata"@]
                        + seq!["frontend_id"@]));
                }
                r
            },
        },
    }
}

/// The serialized text of the metadata document, when there is one.
fn metadata_text(v: &serde_json::Value) -> (r: Option<String>)
    ensures
        r is Some ==> json_has(*v, metadata_path()),
{
    proof {
        assert(seq!["data"@, "object"@] + seq!["metadata"@] =~= metadata_path());
    }
    match get_object(v) {
        None => None,
        Some(w) => match json_get(w, "metadata") {
            None => None,
            Some(m) => {
                proof {
                    assert(json_has(*w, seq!["metadata"@]));
                }
                json_to_text(m)
            },
        },
    }
}

/// What a decoded event holds, member by member, of the document it was
/// decoded from.
pub open spec fn decode_ok(v: serde_json::Value, ev: VerifiedEvent) -> bool {
    match json_str(v, type_path()) {
        None => false,
        Some(t) => {
            &&& ev.kind == spec_classify(t)
            &&& if spec_is_lifecycle(spec_classify(t)) {
                &&& json_str(v, id_path()) == Some(ev.transaction_id@)
                &&& match ev.amount {
                    Some(n) => json_int(v, amount_path()) == Some(n as int),
                    None => match json_int(v, amount_path()) {
                        None => true,
                        Some(m) => m > i64::MAX,
                    },
                }
                &&& opt_view(ev.currency) == json_str(v, currency_path())
                &&& opt_view(ev.subscriber_id) == (if json_str(v, customer_path()) is Some {
                    json_str(v, customer_path())
                } else {
                    json_str(v, customer_id_path())
                })
                &&& opt_view(ev.frontend_id) == json_str(v, frontend_path())
                &&& (ev.raw_metadata is Some ==> json_has(v, metadata_path()))
            } else {
                &&& ev.transaction_id@ == Seq::<char>::empty()
                &&& ev.amount is None
                &&& ev.currency is None
                &&& ev.subscriber_id is None
                &&& ev.frontend_id is None
                &&& ev.raw_metadata is None
            }
        },
    }
}

/// When decoding must fail: no event-type string, or a lifecycle event
/// without a transaction id.
pub open spec fn decode_fails(v: serde_json::Value) -> bool {
    match json_str(v, type_path()) {
        None => true,
        Some(t) => spec_is_lifecycle(spec_classify(t)) && json_str(v, id_path()) is None,
    }
}

/// `decode_ok`, read off the raw body text through the parse observers.
pub open spec fn doc_decode_ok(s: Seq<char>, ev: VerifiedEvent) -> bool {
    match json_doc_str(s, type_path()) {
        None => false,
        Some(t) => {
            &&& ev.kind == spec_classify(t)
            &&& if spec_is_lifecycle(spec_classify(t)) {
                &&& json_doc_str(s, id_path()) == Some(ev.transaction_id@)
                &&& match ev.amount {
                    Some(n) => json_doc_int(s, amount_path()) == Some(n as int),
                    None => match json_doc_int(s, amount_path()) {
                        None => true,
                        Some(m) => m > i64::MAX,
                    },
                }
                &&& opt_view(ev.currency) == json_doc_str(s, currency_path())
                &&& opt_view(ev.subscriber_id) == (if json_doc_str(s, customer_path()) is Some {
                    json_doc_str(s, customer_path())
                } else {
                    json_doc_str(s, customer_id_path())
                })
                &&& opt_view(ev.frontend_id) == json_doc_str(s, frontend_path())
                &&& (ev.raw_metadata is Some ==> json_doc_has(s, metadata_path()))
            } else {
                &&& ev.transaction_id@ == Seq::<char>::empty()
                &&& ev.amount is None
                &&& ev.currency is None
                &&& ev.subscriber_id is None
                &&& ev.frontend_id is None
                &&& ev.raw_metadata is None
            }
        },
    }
}

/// `decode_fails`, read off the raw body text: no event-type string, or a
/// lifecycle event without a transaction id.
pub open spec fn doc_decode_fails(s: Seq<char>) -> bool {
    match json_doc_str(s, type_path()) {
        None => true,
        Some(t) => spec_is_lifecycle(spec_classify(t)) && json_doc_str(s, id_path()) is None,
    }
}

/// Whether the body text names a payment-lifecycle event.
pub open spec fn doc_lifecycle(s: Seq<char>) -> bool {
    match json_doc_str(s, type_path()) {
        None => false,
        Some(t) => spec_is_lifecycle(spec_classify(t)),
    }
}

/// Decodes a parsed webhook document into a classified event: the kind
/// from the event-type string; for lifecycle kinds the transaction id
/// (required), amount, currency, subscriber identity (plain or expanded),
/// frontend identifier and metadata passthrough; for other kinds an empty
/// event of that kind.
pub fn decode_event(v: &serde_json::Value) -> (r: Result<VerifiedEvent, VerificationError>)
    ensures
        r matches Ok(ev) ==> decode_ok(*v, ev) && !decode_fails(*v),
        r matches Err(e) ==> e is MalformedPayload && decode_fails(*v),
{
    let ty = match top_str(v, "type") {
        None => {
            return Err(VerificationError::MalformedPayload);
        },
        Some(t) => t,
    };
    let kind = classify(ty.as_str());
    if is_lifecycle(&kind) {
        proof {
            assert(seq!["data"@, "object"@, "id"@] =~= id_path());
            assert(seq!["data"@, "object"@, "currency"@] =~= currency_path());
            assert(seq!["data"@, "object"@, "customer"@] =~= customer_path());
        }
        let transaction_id = match obj_str(v, "id") {
            None => {
                return Err(VerificationError::MalformedPayload);
            },
            Some(s) => s,
        };
        let amount = obj_amount(v);
        let currency = obj_str(v, "currency");
        let subscriber_id = match obj_str(v, "customer") {
            Some(c) => Some(c),
            None => customer_id_str(v),
        };
        let frontend_id = frontend_str(v);
        let raw_metadata = metadata_text(v);
        Ok(VerifiedEvent {
            kind,
            transaction_id,
            amount,
            currency,
            subscriber_id,
            frontend_id,
            raw_metadata,
        })
    } else {
        Ok(VerifiedEvent {
            kind,
            transaction_id: String::new(),
            amount: None,
            currency: None,
            subscriber_id: None,
            frontend_id: None,
            raw_metadata: None,
        })
    }
}

/// Verifies a webhook call end to end: authenticates it against the
/// secret, parses the body, and decodes the event.  A missing header, a
/// failed signature and an undecodable body are rejected with the matching
/// error; an authenticated call whose body parses and decodes is owed its
/// event, member for member as `doc_decode_ok` says of the body text.
pub fn verify(payload: &str, header: Option<&String>, secret: &str, now: i64) -> (r: Result<
    VerifiedEvent,
    VerificationError,
>)
    ensures
        header is None ==> (r matches Err(e) && e is MissingSignature),
        (header matches Some(h) && !spec_sig_ok(h@, payload@, secret@, now as int)) ==> (r matches
            Err(e) && e is InvalidSignature),
        (header matches Some(h) && spec_sig_ok(h@, payload@, secret@, now as int)) ==> match r {
            Ok(ev) => json_parses(payload@) && !doc_decode_fails(payload@) && doc_decode_ok(
                payload@,
                ev,
            ),
            Err(e) => e is MalformedPayload && (!json_parses(payload@) || doc_decode_fails(
                payload@,
            )),
        },
        r is Ok ==> (header matches Some(h) && spec_sig_ok(h@, payload@, secret@, now as int)),
{
    match check_signature(payload, header, secret, now) {
        Err(e) => {
            return Err(e);
        },
        Ok(()) => {},
    }
    let doc = match json_parse(payload) {
        None => {
            return Err(VerificationError::MalformedPayload);
        },
        Some(doc) => doc,
    };
    let r = decode_event(&doc);
    proof {
        assert(json_str(doc, type_path()) == json_doc_str(payload@, type_path()));
        assert(json_str(doc, id_path()) == json_doc_str(payload@, id_path()));
        assert(json_int(doc, amount_path()) == json_doc_int(payload@, amount_path()));
        assert(json_str(doc, currency_path()) == json_doc_str(payload@, currency_path()));
        assert(json_str(doc, customer_path()) == json_doc_str(payload@, customer_path()));
        assert(json_str(doc, customer_id_path()) == json_doc_str(payload@, customer_id_path()));
        assert(json_str(doc, frontend_path()) == json_doc_str(payload@, frontend_path()));
        assert(json_has(doc, metadata_path()) == json_doc_has(payload@, metadata_path()));
        assert(decode_fails(doc) == doc_decode_fails(payload@));
        match &r {
            Ok(ev) => {
                assert(doc_decode_ok(payload@, *ev));
            },
            Err(_) => {},
        }
    }
    r
}

} // verus!
