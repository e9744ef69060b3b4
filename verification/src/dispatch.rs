//! Notification dispatcher: turns one verified event into a payment-event
//! record to persist and a targeted (or broadcast) delivery through the
//! client registry.

use vstd::prelude::*;

use crate::events::{canonical_status, is_lifecycle, spec_canonical_status, spec_is_lifecycle,
    VerifiedEvent};
use crate::idgen::{new_token, now_rfc3339};
use crate::ledger::{active_targets, connection_ids, opt_view, Ledger, Subscription};
use crate::messages::{build_update_message, opt_int_view, spec_update_message};
use crate::registry::{broadcast_post, contains_id, reg_has, send_to_post, Registry};

verus! {

/// One appended payment-event row: the durable trace of one verified
/// webhook delivery.
pub struct PaymentEventRecord {
    pub id: String,
    pub transaction_id: String,
    pub status: String,
    pub amount: Option<i64>,
    pub currency: Option<String>,
    pub subscriber_id: Option<String>,
    pub metadata: Option<String>,
}

/// The payment-event store: rows are only ever appended, one per verified
/// delivery — retries and duplicates included, by design.
pub struct EventStore {
    pub rows: Vec<PaymentEventRecord>,
}

impl EventStore {
    /// A store with no rows.
    pub fn new() -> (s: EventStore)
        ensures
            s.rows@.len() == 0,
    {
        EventStore { rows: Vec::new() }
    }

    /// Appends one row; nothing is ever merged, replaced or deduplicated.
    pub fn append(&mut self, row: PaymentEventRecord)
        ensures
            final(self).rows@ == old(self).rows@.push(row),
    {
        self.rows.push(row);
    }
}

/// What dispatching decided and did.
pub enum DispatchOutcome {
    /// The event is outside the payment lifecycle: acknowledged, nothing
    /// persisted, nothing delivered.
    Ignored,
    /// A lifecycle event: the record to persist, the update message, and
    /// the connection ids the message reached.
    Dispatched { record: PaymentEventRecord, message: String, delivered: Vec<String> },
}

/// The ledger rows the dispatcher could see, when it had a ledger at all.
pub open spec fn ledger_view(o: Option<&Ledger>) -> Option<Seq<Subscription>> {
    match o {
        None => None,
        Some(l) => Some(l.rows@),
    }
}

/// Everything `dispatch_at` promises, over the record id and timestamp it
/// was given: non-lifecycle events change nothing; a lifecycle event
/// yields a record carrying the event's members and the canonical status,
/// the exact update message, and a delivery — targeted through the active
/// ledger rows (narrowed to the event's frontend identifier) when a ledger
/// was at hand, a broadcast to every registered connection of the
/// transaction otherwise.
pub open spec fn dispatch_post(
    ev: VerifiedEvent,
    rows: Option<Seq<Subscription>>,
    r0: Registry,
    r1: Registry,
    outcome: DispatchOutcome,
    rid: Seq<char>,
    ts: Seq<char>,
) -> bool {
    if !spec_is_lifecycle(ev.kind) {
        outcome is Ignored && r1 == r0
    } else {
        match outcome {
            DispatchOutcome::Ignored => false,
            DispatchOutcome::Dispatched { record, message, delivered } => {
                &&& record.id@ == rid
                &&& record.transaction_id == ev.transaction_id
                &&& Some(record.status@) == spec_canonical_status(ev.kind)
                &&& record.amount == ev.amount
                &&& record.currency == ev.currency
                &&& record.subscriber_id == ev.subscriber_id
                &&& record.metadata == ev.raw_metadata
                &&& message@ == spec_update_message(
                    ev.transaction_id@,
                    spec_canonical_status(ev.kind).unwrap(),
                    opt_int_view(ev.amount),
                    opt_view(ev.currency),
                    ts,
                    opt_view(ev.subscriber_id),
                    opt_view(ev.frontend_id),
                )
                &&& match rows {
                    Some(rs) => {
                        &&& send_to_post(
                            r0,
                            r1,
                            ev.transaction_id@,
                            message@,
                            active_targets(rs, ev.transaction_id@, opt_view(ev.frontend_id)),
                        )
                        &&& forall|c: Seq<char>|
                            contains_id(delivered.deep_view(), c) == (reg_has(
                                r0,
                                ev.transaction_id@,
                                c,
                            ) && contains_id(
                                active_targets(rs, ev.transaction_id@, opt_view(ev.frontend_id)),
                                c,
                            ))
                    },
                    None => {
                        &&& broadcast_post(r0, r1, ev.transaction_id@, message@)
                        &&& forall|c: Seq<char>|
                            contains_id(delivered.deep_view(), c) == reg_has(
                                r0,
                                ev.transaction_id@,
                                c,
                            )
                    },
                }
            },
        }
    }
}

/// Dispatches one verified event with a given record id and timestamp.
pub fn dispatch_at(
    ev: &VerifiedEvent,
    ledger: Option<&Ledger>,
    registry: &mut Registry,
    record_id: String,
    timestamp: &str,
) -> (outcome: DispatchOutcome)
    ensures
        dispatch_post(
            *ev,
            ledger_view(ledger),
            *old(registry),
            *final(registry),
            outcome,
            record_id@,
            timestamp@,
        ),
{
    if !is_lifecycle(&ev.kind) {
        return DispatchOutcome::Ignored;
    }
    let status = match canonical_status(&ev.kind) {
        Some(s) => s,
        None => {
            proof {
                crate::events::lemma_lifecycle_has_status(ev.kind);
            }
            vstd::pervasive::unreached()
        },
    };
    let message = build_update_message(
        ev.transaction_id.as_str(),
        status.as_str(),
        ev.amount,
        ev.currency.as_ref(),
        timestamp,
        ev.subscriber_id.as_ref(),
        ev.frontend_id.as_ref(),
    );
    let record = PaymentEventRecord {
        id: record_id,
        transaction_id: ev.transaction_id.clone(),
        status,
        amount: ev.amount,
        currency: crate::ledger::clone_opt(&ev.currency),
        subscriber_id: crate::ledger::clone_opt(&ev.subscriber_id),
        metadata: crate::ledger::clone_opt(&ev.raw_metadata),
    };
    let delivered = match ledger {
        Some(l) => {
            let rows = l.query_active(&ev.transaction_id, ev.frontend_id.as_ref());
            let ids = connection_ids(&rows);
            registry.send_to(&ev.transaction_id, &message, &ids)
        },
        None => match registry.broadcast(&ev.transaction_id, &message) {
            Ok(d) => d,
            Err(_) => Vec::new(),
        },
    };
    DispatchOutcome::Dispatched { record, message, delivered }
}

/// Dispatches one verified event, drawing a fresh record id and reading
/// the clock; everything else is as `dispatch_post` says for some id of
/// the usual 36 characters and some timestamp.
pub fn dispatch(ev: &VerifiedEvent, ledger: Option<&Ledger>, registry: &mut Registry) -> (outcome:
    DispatchOutcome)
    ensures
        exists|rid: Seq<char>, ts: Seq<char>|
            #[trigger] dispatch_post(
                *ev,
                ledger_view(ledger),
                *old(registry),
                *final(registry),
                outcome,
                rid,
                ts,
            ) && rid.len() == 36,
        *final(registry) == *old(registry) || spec_is_lifecycle(ev.kind),
{
    let record_id = new_token();
    let timestamp = now_rfc3339();
    let outcome = dispatch_at(ev, ledger, registry, record_id, timestamp.as_str());
    outcome
}

/// What a webhook call is answered with.
pub enum WebhookResponse {
    /// The call was received, authenticated and classified; delivery
    /// downstream is best-effort and not reported to the caller.
    Acknowledged,
    /// Authentication failed or the body could not be decoded; nothing
    /// was persisted and nothing was delivered.
    Rejected,
}

/// Whether the call's signature authenticates it (a missing header never
/// does).
pub open spec fn call_authenticated(
    payload: Seq<char>,
    header: Option<&String>,
    secret: Seq<char>,
    now: int,
) -> bool {
    match header {
        None => false,
        Some(h) => crate::webhook::spec_sig_ok(h@, payload, secret, now),
    }
}

/// What an acknowledged call did: the event decoded from the body text
/// was dispatched as `dispatch_post` says, and exactly the record of a
/// dispatched lifecycle event was appended to the store.
pub open spec fn acknowledged_effects(
    payload: Seq<char>,
    rows: Option<Seq<Subscription>>,
    r0: Registry,
    r1: Registry,
    store0: Seq<PaymentEventRecord>,
    store1: Seq<PaymentEventRecord>,
) -> bool {
    exists|ev: VerifiedEvent, outcome: DispatchOutcome, rid: Seq<char>, ts: Seq<char>|
        {
            &&& #[trigger] dispatch_post(ev, rows, r0, r1, outcome, rid, ts)
            &&& crate::webhook::doc_decode_ok(payload, ev)
            &&& store1 == match outcome {
                DispatchOutcome::Ignored => store0,
                DispatchOutcome::Dispatched { record, message: _, delivered: _ } => store0.push(
                    record,
                ),
            }
        }
}

/// The whole webhook-to-broadcast pipeline for one call: verify, decode,
/// persist one row, deliver.  An unauthenticated or undecodable call is
/// rejected and leaves both the event store and the registry exactly as
/// they were; an authenticated call whose body parses and decodes is owed
/// the success answer, with the decoded event dispatched as
/// `dispatch_post` says: for a lifecycle event exactly its record is
/// appended, for any other event nothing at all changes.
pub fn process_webhook(
    payload: &str,
    header: Option<&String>,
    secret: &str,
    now: i64,
    ledger: Option<&Ledger>,
    registry: &mut Registry,
    store: &mut EventStore,
) -> (resp: WebhookResponse)
    ensures
        !call_authenticated(payload@, header, secret@, now as int) ==> (resp is Rejected
            && *final(registry) == *old(registry) && final(store).rows@ == old(store).rows@),
        resp is Rejected ==> *final(registry) == *old(registry) && final(store).rows@ == old(
            store,
        ).rows@,
        resp is Acknowledged <==> (call_authenticated(payload@, header, secret@, now as int)
            && crate::json::json_parses(payload@) && !crate::webhook::doc_decode_fails(payload@)),
        resp is Acknowledged ==> acknowledged_effects(
            payload@,
            ledger_view(ledger),
            *old(registry),
            *final(registry),
            old(store).rows@,
            final(store).rows@,
        ),
        (resp is Acknowledged && !crate::webhook::doc_lifecycle(payload@)) ==> (*final(registry)
            == *old(registry) && final(store).rows@ == old(store).rows@),
        (resp is Acknowledged && crate::webhook::doc_lifecycle(payload@)) ==> final(store).rows@.len()
            == old(store).rows@.len() + 1,
        forall|i: int|
            0 <= i < old(store).rows@.len() ==> final(store).rows@[i] == old(store).rows@[i],
        final(store).rows@.len() == old(store).rows@.len() ==> *final(registry) == *old(registry),
{
    let ev = match crate::webhook::verify(payload, header, secret, now) {
        Err(_) => {
            return WebhookResponse::Rejected;
        },
        Ok(ev) => ev,
    };
    let ghost evg = ev;
    let outcome = dispatch(&ev, ledger, registry);
    let ghost o = outcome;
    proof {
        let (rid, ts) = choose|rid: Seq<char>, ts: Seq<char>|
            #[trigger] dispatch_post(
                evg,
                ledger_view(ledger),
                *old(registry),
                *registry,
                o,
                rid,
                ts,
            ) && rid.len() == 36;
        assert(dispatch_post(evg, ledger_view(ledger), *old(registry), *registry, o, rid, ts));
    }
    match outcome {
        DispatchOutcome::Ignored => {
            proof {
                lemma_acknowledged_effects_witness(
                    payload@,
                    ledger_view(ledger),
                    *old(registry),
                    *registry,
                    store.rows@,
                    store.rows@,
                    evg,
                    o,
                );
            }
            WebhookResponse::Acknowledged
        },
        DispatchOutcome::Dispatched { record, message: _, delivered: _ } => {
            let ghost rec = record;
            store.append(record);
            proof {
                lemma_acknowledged_effects_witness(
                    payload@,
                    ledger_view(ledger),
                    *old(registry),
                    *registry,
                    old(store).rows@,
                    store.rows@,
                    evg,
                    o,
                );
            }
            WebhookResponse::Acknowledged
        },
    }
}

/// Introduces the witness for `acknowledged_effects` from the dispatched
/// outcome at hand.
proof fn lemma_acknowledged_effects_witness(
    payload: Seq<char>,
    rows: Option<Seq<Subscription>>,
    r0: Registry,
    r1: Registry,
    store0: Seq<PaymentEventRecord>,
    store1: Seq<PaymentEventRecord>,
    ev: VerifiedEvent,
    outcome: DispatchOutcome,
)
    requires
        exists|rid: Seq<char>, ts: Seq<char>|
            #[trigger] dispatch_post(ev, rows, r0, r1, outcome, rid, ts),
        crate::webhook::doc_decode_ok(payload, ev),
        store1 == match outcome {
            DispatchOutcome::Ignored => store0,
            DispatchOutcome::Dispatched { record, message: _, delivered: _ } => store0.push(
                record,
            ),
        },
    ensures
        acknowledged_effects(payload, rows, r0, r1, store0, store1),
{
    let (rid, ts) = choose|rid: Seq<char>, ts: Seq<char>|
        #[trigger] dispatch_post(ev, rows, r0, r1, outcome, rid, ts);
    assert(dispatch_post(ev, rows, r0, r1, outcome, rid, ts));
}

} // verus!
