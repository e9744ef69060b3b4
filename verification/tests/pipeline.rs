//! Scenario tests of the webhook-to-broadcast pipeline: authentication,
//! classification, persistence, targeted and fallback delivery, session
//! lifecycle, and queue ordering.

use hmac::Mac;
use payment_relay::dispatch::{dispatch_at, process_webhook, DispatchOutcome, EventStore,
    WebhookResponse};
use payment_relay::ledger::Ledger;
use payment_relay::messages::SubscribeFrame;
use payment_relay::registry::Registry;
use payment_relay::session::{close_session, handle_subscribe, Session, SessionPhase};
use payment_relay::webhook::{check_signature, verify, VerificationError};

const SECRET: &str = "whsec_local_test_key";
const NOW: i64 = 1700000000;

fn hex_of(bytes: &[u8]) -> String {
    let mut s = String::new();
    for b in bytes {
        s.push_str(&format!("{:02x}", b));
    }
    s
}

fn sign_at(secret: &str, t: i64, payload: &str) -> String {
    let mut mac = hmac::Hmac::<sha2::Sha256>::new_from_slice(secret.as_bytes()).unwrap();
    mac.update(format!("{}.{}", t, payload).as_bytes());
    format!("t={},v1={}", t, hex_of(&mac.finalize().into_bytes()))
}

fn sign(payload: &str) -> String {
    sign_at(SECRET, NOW, payload)
}

fn succeeded_body(tx: &str, frontend: Option<&str>) -> String {
    let metadata = match frontend {
        None => "{}".to_string(),
        Some(f) => format!("{{\"frontend_id\":\"{}\"}}", f),
    };
    format!(
        "{{\"type\":\"payment_intent.succeeded\",\"data\":{{\"object\":{{\
         \"id\":\"{}\",\"amount\":1200,\"currency\":\"usd\",\"metadata\":{}}}}}}}",
        tx, metadata
    )
}

fn open_session() -> Session {
    let mut s = Session::connect();
    s.open();
    s
}

fn subscribe(
    registry: &mut Registry,
    ledger: &mut Ledger,
    tx: &str,
    subscriber: Option<&str>,
) -> Session {
    let session = open_session();
    let frame = SubscribeFrame {
        transaction_id: tx.to_string(),
        subscriber_id: subscriber.map(|s| s.to_string()),
        subscriber_contact: None,
    };
    let now = "2024-01-01T00:00:00+00:00".to_string();
    handle_subscribe(&session, &frame, registry, ledger, &now);
    session
}

fn queue_of<'a>(registry: &'a Registry, tx: &str, session: &Session) -> &'a Vec<String> {
    let e = registry
        .entries
        .iter()
        .find(|e| e.transaction_id == tx && e.connection_id == session.connection_id)
        .expect("registered entry");
    &e.queue
}

#[test]
fn authenticated_lifecycle_event_is_recorded_and_delivered_in_order() {
    let mut registry = Registry::new();
    let mut ledger = Ledger::new();
    let session = subscribe(&mut registry, &mut ledger, "pi_1", None);

    let payload = succeeded_body("pi_1", None);
    let header = sign(&payload);
    let ev = verify(&payload, Some(&header), SECRET, NOW).ok().expect("authentic call decodes");

    let outcome = dispatch_at(
        &ev,
        Some(&ledger),
        &mut registry,
        "00000000-0000-4000-8000-000000000000".to_string(),
        "2024-01-01T00:00:05+00:00",
    );
    let (record, message, delivered) = match outcome {
        DispatchOutcome::Dispatched { record, message, delivered } => (record, message, delivered),
        DispatchOutcome::Ignored => panic!("lifecycle event must dispatch"),
    };
    assert_eq!(record.transaction_id, "pi_1");
    assert_eq!(record.status, "succeeded");
    assert_eq!(record.amount, Some(1200));
    assert_eq!(record.currency, Some("usd".to_string()));
    assert_eq!(delivered, vec![session.connection_id.clone()]);
    assert_eq!(
        message,
        "{\"type\":\"payment_update\",\"transaction_id\":\"pi_1\",\"status\":\"succeeded\",\
         \"amount\":1200,\"currency\":\"usd\",\"timestamp\":\"2024-01-01T00:00:05+00:00\",\
         \"subscriber_id\":null,\"frontend_id\":null}"
    );

    // The confirmation was queued at subscribe time; the update lands
    // behind it, in order.
    let q = queue_of(&registry, "pi_1", &session);
    assert_eq!(q.len(), 2);
    assert_eq!(
        q[0],
        "{\"type\":\"subscription_confirmed\",\"transaction_id\":\"pi_1\"}"
    );
    assert_eq!(q[1], message);
}

#[test]
fn invalid_signature_is_rejected_with_no_row_and_no_delivery() {
    let mut registry = Registry::new();
    let mut ledger = Ledger::new();
    let session = subscribe(&mut registry, &mut ledger, "pi_1", None);
    let mut store = EventStore::new();

    let payload = succeeded_body("pi_1", None);
    let tampered = succeeded_body("pi_other", None);
    let header = sign(&tampered);
    let resp = process_webhook(
        &payload,
        Some(&header),
        SECRET,
        NOW,
        Some(&ledger),
        &mut registry,
        &mut store,
    );
    assert!(matches!(resp, WebhookResponse::Rejected));
    assert_eq!(store.rows.len(), 0);
    assert_eq!(queue_of(&registry, "pi_1", &session).len(), 1);
}

#[test]
fn missing_signature_is_rejected() {
    let payload = succeeded_body("pi_1", None);
    let err = verify(&payload, None, SECRET, NOW).err().unwrap();
    assert!(matches!(err, VerificationError::MissingSignature));

    let mut registry = Registry::new();
    let mut store = EventStore::new();
    let resp = process_webhook(&payload, None, SECRET, NOW, None, &mut registry, &mut store);
    assert!(matches!(resp, WebhookResponse::Rejected));
    assert_eq!(store.rows.len(), 0);
}

#[test]
fn stale_timestamp_is_rejected() {
    let payload = succeeded_body("pi_1", None);
    let header = sign_at(SECRET, NOW - 301, &payload);
    let err = check_signature(&payload, Some(&header), SECRET, NOW).err().unwrap();
    assert!(matches!(err, VerificationError::InvalidSignature));
    let fresh = sign_at(SECRET, NOW - 299, &payload);
    assert!(check_signature(&payload, Some(&fresh), SECRET, NOW).is_ok());
}

#[test]
fn header_pairs_tolerate_extras_and_the_last_key_wins() {
    let payload = succeeded_body("pi_1", None);
    let mut mac = hmac::Hmac::<sha2::Sha256>::new_from_slice(SECRET.as_bytes()).unwrap();
    mac.update(format!("{}.{}", NOW, payload).as_bytes());
    let good = hex_of(&mac.finalize().into_bytes());

    // Unknown keys and a piece without `=` are ignored.
    let header = format!("v0=0000,junk,t={},v1={}", NOW, good);
    assert!(check_signature(&payload, Some(&header), SECRET, NOW).is_ok());

    // Of repeated keys the last wins: a bogus v1 before the good one is
    // shadowed, a bogus one after it shadows the good one.
    let shadowed = format!("t={},v1=0000,v1={}", NOW, good);
    assert!(check_signature(&payload, Some(&shadowed), SECRET, NOW).is_ok());
    let shadowing = format!("t={},v1={},v1=0000", NOW, good);
    assert!(check_signature(&payload, Some(&shadowing), SECRET, NOW).is_err());
}

#[test]
fn header_without_timestamp_or_digest_is_rejected() {
    let payload = succeeded_body("pi_1", None);
    let e1 = check_signature(&payload, Some(&"v1=abcd".to_string()), SECRET, NOW).err().unwrap();
    assert!(matches!(e1, VerificationError::InvalidSignature));
    let e2 = check_signature(&payload, Some(&format!("t={}", NOW)), SECRET, NOW).err().unwrap();
    assert!(matches!(e2, VerificationError::InvalidSignature));
    let e3 = check_signature(&payload, Some(&format!("t=12a,v1=00")), SECRET, NOW).err().unwrap();
    assert!(matches!(e3, VerificationError::InvalidSignature));
    let e4 = check_signature(&payload, Some(&"".to_string()), SECRET, NOW).err().unwrap();
    assert!(matches!(e4, VerificationError::InvalidSignature));
}

#[test]
fn wrong_secret_is_rejected() {
    let payload = succeeded_body("pi_1", None);
    let header = sign_at("whsec_other", NOW, &payload);
    let err = check_signature(&payload, Some(&header), SECRET, NOW).err().unwrap();
    assert!(matches!(err, VerificationError::InvalidSignature));
}

#[test]
fn authentic_but_undecodable_body_is_rejected() {
    let payload = "{\"no_type\":true}";
    let header = sign(payload);
    let err = verify(payload, Some(&header), SECRET, NOW).err().unwrap();
    assert!(matches!(err, VerificationError::MalformedPayload));
    let not_json = "][";
    let header2 = sign(not_json);
    let err2 = verify(not_json, Some(&header2), SECRET, NOW).err().unwrap();
    assert!(matches!(err2, VerificationError::MalformedPayload));
}

#[test]
fn unrecognized_event_is_acknowledged_without_side_effects() {
    let mut registry = Registry::new();
    let mut ledger = Ledger::new();
    let session = subscribe(&mut registry, &mut ledger, "pi_1", None);
    let mut store = EventStore::new();

    let payload = "{\"type\":\"invoice.created\",\"data\":{\"object\":{\"id\":\"in_1\"}}}";
    let header = sign(payload);
    let resp = process_webhook(
        payload,
        Some(&header),
        SECRET,
        NOW,
        Some(&ledger),
        &mut registry,
        &mut store,
    );
    assert!(matches!(resp, WebhookResponse::Acknowledged));
    assert_eq!(store.rows.len(), 0);
    assert_eq!(queue_of(&registry, "pi_1", &session).len(), 1);
}

#[test]
fn duplicate_deliveries_append_two_rows() {
    let mut registry = Registry::new();
    let mut store = EventStore::new();
    let payload = succeeded_body("pi_1", None);
    let header = sign(&payload);
    for _ in 0..2 {
        let resp = process_webhook(
            &payload,
            Some(&header),
            SECRET,
            NOW,
            None,
            &mut registry,
            &mut store,
        );
        assert!(matches!(resp, WebhookResponse::Acknowledged));
    }
    assert_eq!(store.rows.len(), 2);
    assert_eq!(store.rows[0].transaction_id, store.rows[1].transaction_id);
    assert_eq!(store.rows[0].status, store.rows[1].status);
    assert_eq!(store.rows[0].amount, store.rows[1].amount);
    assert_ne!(store.rows[0].id, store.rows[1].id);
}

#[test]
fn targeted_delivery_reaches_only_the_named_subscriber() {
    let mut registry = Registry::new();
    let mut ledger = Ledger::new();
    let s_a = subscribe(&mut registry, &mut ledger, "pi_1", Some("front_a"));
    let s_b = subscribe(&mut registry, &mut ledger, "pi_1", Some("front_b"));
    let mut store = EventStore::new();

    let payload = succeeded_body("pi_1", Some("front_b"));
    let header = sign(&payload);
    let resp = process_webhook(
        &payload,
        Some(&header),
        SECRET,
        NOW,
        Some(&ledger),
        &mut registry,
        &mut store,
    );
    assert!(matches!(resp, WebhookResponse::Acknowledged));
    assert_eq!(store.rows.len(), 1);
    // Only the matching connection got the update behind its confirmation.
    assert_eq!(queue_of(&registry, "pi_1", &s_b).len(), 2);
    assert_eq!(queue_of(&registry, "pi_1", &s_a).len(), 1);
}

#[test]
fn fallback_delivery_reaches_subscription_without_identity() {
    let mut registry = Registry::new();
    let mut ledger = Ledger::new();
    let session = subscribe(&mut registry, &mut ledger, "pi_1", None);
    let mut store = EventStore::new();

    let payload = succeeded_body("pi_1", None);
    let header = sign(&payload);
    let resp = process_webhook(
        &payload,
        Some(&header),
        SECRET,
        NOW,
        Some(&ledger),
        &mut registry,
        &mut store,
    );
    assert!(matches!(resp, WebhookResponse::Acknowledged));
    let q = queue_of(&registry, "pi_1", &session);
    assert_eq!(q.len(), 2);
    assert!(q[1].contains("\"type\":\"payment_update\""));
}

#[test]
fn closing_a_session_deactivates_its_rows_and_unregisters_it() {
    let mut registry = Registry::new();
    let mut ledger = Ledger::new();
    let mut session = subscribe(&mut registry, &mut ledger, "pi_1", None);
    assert_eq!(ledger.query_active(&"pi_1".to_string(), None).len(), 1);

    let stamp = "2024-01-01T01:00:00+00:00".to_string();
    close_session(&mut session, &mut registry, &mut ledger, &stamp);
    assert!(matches!(session.phase, SessionPhase::Closed));
    assert_eq!(ledger.rows.len(), 1);
    assert_eq!(ledger.query_active(&"pi_1".to_string(), None).len(), 0);
    assert_eq!(registry.entries.len(), 0);

    // A later matching event finds nobody: the row is excluded for good.
    let mut store = EventStore::new();
    let payload = succeeded_body("pi_1", None);
    let header = sign(&payload);
    let resp = process_webhook(
        &payload,
        Some(&header),
        SECRET,
        NOW,
        Some(&ledger),
        &mut registry,
        &mut store,
    );
    assert!(matches!(resp, WebhookResponse::Acknowledged));
    assert_eq!(store.rows.len(), 1);
    assert_eq!(registry.entries.len(), 0);
}

#[test]
fn many_registrations_each_get_their_own_entry_and_all_receive_a_broadcast() {
    let mut registry = Registry::new();
    let mut ledger = Ledger::new();
    let tx = "pi_n".to_string();
    let sessions: Vec<Session> =
        (0..5).map(|_| subscribe(&mut registry, &mut ledger, "pi_n", None)).collect();
    assert_eq!(registry.entries.len(), 5);

    let msg = "fan-out".to_string();
    let delivered = registry.broadcast(&tx, &msg).unwrap();
    assert_eq!(delivered.len(), 5);
    for s in &sessions {
        let q = queue_of(&registry, "pi_n", s);
        assert_eq!(q.len(), 2);
        assert_eq!(q[1], "fan-out");
    }
}
