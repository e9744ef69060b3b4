//! Unit tests of the building blocks: classification, status mapping,
//! message formatting, decoding, and the ledger and registry operations.

use payment_relay::dispatch::EventStore;
use payment_relay::events::{canonical_status, classify, is_lifecycle, EventKind};
use payment_relay::ledger::{connection_ids, Ledger, Subscription, SubscriptionStatus};
use payment_relay::messages::{build_confirmation, build_update_message, frame_of,
    parse_subscribe_text};
use payment_relay::registry::{DeliveryError, Registry};
use payment_relay::session::Session;
use payment_relay::text::{dec_i64, dec_u64};
use payment_relay::webhook::decode_event;

fn sub(
    tx: &str,
    cid: &str,
    subscriber: Option<&str>,
    status: SubscriptionStatus,
) -> Subscription {
    Subscription {
        id: "row".to_string(),
        transaction_id: tx.to_string(),
        connection_id: cid.to_string(),
        created_at: "2024-01-01T00:00:00+00:00".to_string(),
        updated_at: "2024-01-01T00:00:00+00:00".to_string(),
        subscriber_id: subscriber.map(|s| s.to_string()),
        subscriber_contact: None,
        status,
    }
}

#[test]
fn classify_maps_every_lifecycle_type() {
    assert!(matches!(classify("payment_intent.created"), EventKind::PaymentCreated));
    assert!(matches!(classify("payment_intent.processing"), EventKind::PaymentProcessing));
    assert!(matches!(classify("payment_intent.requires_action"), EventKind::PaymentRequiresAction));
    assert!(matches!(
        classify("payment_intent.requires_capture"),
        EventKind::PaymentRequiresCapture
    ));
    assert!(matches!(
        classify("payment_intent.amount_capturable_updated"),
        EventKind::PaymentAmountCapturableUpdated
    ));
    assert!(matches!(classify("payment_intent.succeeded"), EventKind::PaymentSucceeded));
    assert!(matches!(classify("payment_intent.canceled"), EventKind::PaymentCanceled));
    assert!(matches!(classify("payment_intent.payment_failed"), EventKind::PaymentFailed));
    assert!(matches!(
        classify("payment_intent.partially_funded"),
        EventKind::PaymentPartiallyFunded
    ));
    assert!(matches!(classify("payment_method.attached"), EventKind::PaymentMethodAttached));
    assert!(matches!(classify("charge.succeeded"), EventKind::ChargeSucceeded));
    assert!(matches!(classify("charge.updated"), EventKind::ChargeUpdated));
    assert!(matches!(classify("invoice.created"), EventKind::Unrecognized));
    assert!(matches!(classify(""), EventKind::Unrecognized));
}

#[test]
fn lifecycle_kinds_have_status_codes() {
    assert_eq!(canonical_status(&EventKind::PaymentSucceeded), Some("succeeded".to_string()));
    assert_eq!(canonical_status(&EventKind::PaymentCreated), Some("created".to_string()));
    assert_eq!(canonical_status(&EventKind::PaymentProcessing), Some("processing".to_string()));
    assert_eq!(
        canonical_status(&EventKind::PaymentRequiresAction),
        Some("requires_action".to_string())
    );
    assert_eq!(
        canonical_status(&EventKind::PaymentRequiresCapture),
        Some("requires_capture".to_string())
    );
    assert_eq!(
        canonical_status(&EventKind::PaymentAmountCapturableUpdated),
        Some("amount_capturable_updated".to_string())
    );
    assert_eq!(canonical_status(&EventKind::PaymentCanceled), Some("canceled".to_string()));
    assert_eq!(canonical_status(&EventKind::PaymentFailed), Some("payment_failed".to_string()));
    assert_eq!(
        canonical_status(&EventKind::PaymentPartiallyFunded),
        Some("partially_funded".to_string())
    );
    assert_eq!(canonical_status(&EventKind::ChargeUpdated), None);
    assert_eq!(canonical_status(&EventKind::Unrecognized), None);
    assert!(is_lifecycle(&EventKind::PaymentSucceeded));
    assert!(!is_lifecycle(&EventKind::ChargeSucceeded));
    assert!(!is_lifecycle(&EventKind::PaymentMethodAttached));
    assert!(!is_lifecycle(&EventKind::Unrecognized));
}

#[test]
fn decimal_rendering_is_exact() {
    assert_eq!(dec_u64(0), "0");
    assert_eq!(dec_u64(7), "7");
    assert_eq!(dec_u64(1234567890), "1234567890");
    assert_eq!(dec_u64(u64::MAX), "18446744073709551615");
    assert_eq!(dec_i64(0), "0");
    assert_eq!(dec_i64(-1), "-1");
    assert_eq!(dec_i64(-42), "-42");
    assert_eq!(dec_i64(i64::MAX), "9223372036854775807");
    assert_eq!(dec_i64(i64::MIN), "-9223372036854775808");
}

#[test]
fn confirmation_message_is_exact() {
    assert_eq!(
        build_confirmation("pi_123"),
        "{\"type\":\"subscription_confirmed\",\"transaction_id\":\"pi_123\"}"
    );
}

#[test]
fn confirmation_message_escapes_special_characters() {
    assert_eq!(
        build_confirmation("a\"b\\c\nd"),
        "{\"type\":\"subscription_confirmed\",\"transaction_id\":\"a\\\"b\\\\c\\u000ad\"}"
    );
}

#[test]
fn confirmation_message_passes_other_characters_through() {
    assert_eq!(
        build_confirmation(""),
        "{\"type\":\"subscription_confirmed\",\"transaction_id\":\"\"}"
    );
    assert_eq!(
        build_confirmation("péi_1"),
        "{\"type\":\"subscription_confirmed\",\"transaction_id\":\"péi_1\"}"
    );
}

#[test]
fn update_message_is_exact() {
    let currency = "usd".to_string();
    let subscriber = "cus_9".to_string();
    let m = build_update_message(
        "pi_1",
        "succeeded",
        Some(2500),
        Some(&currency),
        "2024-05-01T10:00:00+00:00",
        Some(&subscriber),
        None,
    );
    assert_eq!(
        m,
        "{\"type\":\"payment_update\",\"transaction_id\":\"pi_1\",\"status\":\"succeeded\",\
         \"amount\":2500,\"currency\":\"usd\",\"timestamp\":\"2024-05-01T10:00:00+00:00\",\
         \"subscriber_id\":\"cus_9\",\"frontend_id\":null}"
    );
}

#[test]
fn update_message_with_all_optionals_null() {
    let m = build_update_message("pi_2", "created", None, None, "t", None, None);
    assert_eq!(
        m,
        "{\"type\":\"payment_update\",\"transaction_id\":\"pi_2\",\"status\":\"created\",\
         \"amount\":null,\"currency\":null,\"timestamp\":\"t\",\"subscriber_id\":null,\
         \"frontend_id\":null}"
    );
}

#[test]
fn decode_extracts_every_member() {
    let body = "{\"type\":\"payment_intent.succeeded\",\"data\":{\"object\":{\
                \"id\":\"pi_77\",\"amount\":1850,\"currency\":\"eur\",\
                \"customer\":\"cus_5\",\"metadata\":{\"frontend_id\":\"web\"}}}}";
    let doc = serde_json::from_str::<serde_json::Value>(body).unwrap();
    let ev = decode_event(&doc).ok().unwrap();
    assert!(matches!(ev.kind, EventKind::PaymentSucceeded));
    assert_eq!(ev.transaction_id, "pi_77");
    assert_eq!(ev.amount, Some(1850));
    assert_eq!(ev.currency, Some("eur".to_string()));
    assert_eq!(ev.subscriber_id, Some("cus_5".to_string()));
    assert_eq!(ev.frontend_id, Some("web".to_string()));
    assert_eq!(ev.raw_metadata, Some("{\"frontend_id\":\"web\"}".to_string()));
}

#[test]
fn decode_takes_expanded_customer_id() {
    let body = "{\"type\":\"payment_intent.created\",\"data\":{\"object\":{\
                \"id\":\"pi_1\",\"customer\":{\"id\":\"cus_x\"}}}}";
    let doc = serde_json::from_str::<serde_json::Value>(body).unwrap();
    let ev = decode_event(&doc).ok().unwrap();
    assert_eq!(ev.subscriber_id, Some("cus_x".to_string()));
    assert_eq!(ev.amount, None);
    assert_eq!(ev.currency, None);
    assert_eq!(ev.frontend_id, None);
    assert_eq!(ev.raw_metadata, None);
}

#[test]
fn decode_rejects_lifecycle_event_without_id() {
    let body = "{\"type\":\"payment_intent.succeeded\",\"data\":{\"object\":{\"amount\":1}}}";
    let doc = serde_json::from_str::<serde_json::Value>(body).unwrap();
    assert!(decode_event(&doc).is_err());
}

#[test]
fn decode_rejects_missing_type() {
    let doc = serde_json::from_str::<serde_json::Value>("{\"data\":{}}").unwrap();
    assert!(decode_event(&doc).is_err());
}

#[test]
fn decode_passes_non_lifecycle_through() {
    let body = "{\"type\":\"charge.succeeded\",\"data\":{\"object\":{\"id\":\"ch_1\"}}}";
    let doc = serde_json::from_str::<serde_json::Value>(body).unwrap();
    let ev = decode_event(&doc).ok().unwrap();
    assert!(matches!(ev.kind, EventKind::ChargeSucceeded));
    assert_eq!(ev.transaction_id, "");
}

#[test]
fn subscribe_frame_is_decoded() {
    let f = parse_subscribe_text(
        "{\"type\":\"subscribe\",\"transaction_id\":\"pi_5\",\
         \"subscriber_id\":\"cus_2\",\"subscriber_contact\":\"a@b.c\"}",
    )
    .unwrap();
    assert_eq!(f.transaction_id, "pi_5");
    assert_eq!(f.subscriber_id, Some("cus_2".to_string()));
    assert_eq!(f.subscriber_contact, Some("a@b.c".to_string()));
}

#[test]
fn subscribe_frame_optionals_may_be_absent() {
    let f = parse_subscribe_text("{\"type\":\"subscribe\",\"transaction_id\":\"pi_5\"}").unwrap();
    assert_eq!(f.transaction_id, "pi_5");
    assert_eq!(f.subscriber_id, None);
    assert_eq!(f.subscriber_contact, None);
}

#[test]
fn malformed_frames_are_dropped() {
    assert!(parse_subscribe_text("not json at all").is_none());
    assert!(parse_subscribe_text("{\"type\":\"unsubscribe\",\"transaction_id\":\"x\"}").is_none());
    assert!(parse_subscribe_text("{\"type\":\"subscribe\"}").is_none());
    let doc = serde_json::from_str::<serde_json::Value>("{\"type\":\"ping\"}").unwrap();
    assert!(frame_of(&doc).is_none());
}

#[test]
fn ledger_query_filters_by_transaction_status_and_subscriber() {
    let mut l = Ledger::new();
    l.insert(sub("pi_1", "conn_a", Some("cus_1"), SubscriptionStatus::Active));
    l.insert(sub("pi_1", "conn_b", Some("cus_2"), SubscriptionStatus::Active));
    l.insert(sub("pi_2", "conn_c", Some("cus_1"), SubscriptionStatus::Active));
    l.insert(sub("pi_1", "conn_d", None, SubscriptionStatus::Inactive));

    let all = l.query_active(&"pi_1".to_string(), None);
    assert_eq!(connection_ids(&all), vec!["conn_a".to_string(), "conn_b".to_string()]);

    let filter = "cus_2".to_string();
    let narrowed = l.query_active(&"pi_1".to_string(), Some(&filter));
    assert_eq!(connection_ids(&narrowed), vec!["conn_b".to_string()]);
}

#[test]
fn ledger_set_inactive_is_one_way_and_keeps_rows() {
    let mut l = Ledger::new();
    l.insert(sub("pi_1", "conn_a", None, SubscriptionStatus::Active));
    l.insert(sub("pi_1", "conn_b", None, SubscriptionStatus::Active));
    let stamp = "2024-06-01T00:00:00+00:00".to_string();
    l.set_inactive(&"conn_a".to_string(), &stamp);
    assert_eq!(l.rows.len(), 2);
    assert!(matches!(l.rows[0].status, SubscriptionStatus::Inactive));
    assert_eq!(l.rows[0].updated_at, stamp);
    assert!(matches!(l.rows[1].status, SubscriptionStatus::Active));
    let active = l.query_active(&"pi_1".to_string(), None);
    assert_eq!(connection_ids(&active), vec!["conn_b".to_string()]);
}

#[test]
fn registry_register_is_idempotent_and_broadcast_reaches_queues() {
    let tx = "pi_9".to_string();
    let c1 = "conn_1".to_string();
    let mut r = Registry::new();
    r.register(&tx, &c1);
    r.register(&tx, &c1);
    assert_eq!(r.entries.len(), 1);
    let msg = "hello".to_string();
    let delivered = r.broadcast(&tx, &msg).unwrap();
    assert_eq!(delivered, vec!["conn_1".to_string()]);
    assert_eq!(r.entries[0].queue, vec!["hello".to_string()]);
}

#[test]
fn broadcast_with_no_subscribers_is_signaled() {
    let mut r = Registry::new();
    let res = r.broadcast(&"pi_none".to_string(), &"m".to_string());
    assert!(matches!(res, Err(DeliveryError::NoSubscribers)));
}

#[test]
fn send_to_skips_unregistered_targets_in_silence() {
    let tx = "pi_9".to_string();
    let mut r = Registry::new();
    r.register(&tx, &"conn_1".to_string());
    let targets = vec!["conn_1".to_string(), "conn_gone".to_string()];
    let delivered = r.send_to(&tx, &"m".to_string(), &targets);
    assert_eq!(delivered, vec!["conn_1".to_string()]);
    assert_eq!(r.entries[0].queue, vec!["m".to_string()]);
}

#[test]
fn remove_connection_unregisters_everywhere() {
    let c = "conn_1".to_string();
    let mut r = Registry::new();
    r.register(&"pi_1".to_string(), &c);
    r.register(&"pi_2".to_string(), &c);
    r.register(&"pi_1".to_string(), &"conn_2".to_string());
    r.remove_connection(&c);
    assert_eq!(r.entries.len(), 1);
    assert_eq!(r.entries[0].connection_id, "conn_2");
}

#[test]
fn event_store_appends_in_order() {
    let mut s = EventStore::new();
    assert_eq!(s.rows.len(), 0);
    s.append(payment_relay::dispatch::PaymentEventRecord {
        id: "1".to_string(),
        transaction_id: "pi".to_string(),
        status: "created".to_string(),
        amount: None,
        currency: None,
        subscriber_id: None,
        metadata: None,
    });
    assert_eq!(s.rows.len(), 1);
    assert_eq!(s.rows[0].id, "1");
}

#[test]
fn fresh_sessions_carry_distinct_tokens() {
    let a = Session::connect();
    let b = Session::connect();
    assert_eq!(a.connection_id.len(), 36);
    assert_eq!(b.connection_id.len(), 36);
    assert_ne!(a.connection_id, b.connection_id);
}
