//! The system's cross-component laws, each proved from the contracts the
//! components state.

use vstd::prelude::*;

use crate::dispatch::{dispatch_post, DispatchOutcome, PaymentEventRecord};
use crate::events::{spec_is_lifecycle, VerifiedEvent};
use crate::ledger::{active_targets, deactivated, lemma_active_targets_member, row_matches,
    set_inactive_post, Ledger, Subscription};
use crate::registry::{broadcast_post, contains_id, reg_has, reg_queue, register_post,
    send_to_post, Registry};
use crate::session::subscribe_post;

verus! {

/// Queue order is first-in-first-out: a subscription's confirmation is
/// queued at subscribe time, and a later matching update lands behind it —
/// delivery only ever appends at the tail, never reorders or drops what
/// was queued before.
pub proof fn lemma_subscribe_then_deliver(
    r0: Registry,
    r1: Registry,
    r2: Registry,
    tx: Seq<char>,
    cid: Seq<char>,
    conf: Seq<char>,
    m: Seq<char>,
    targets: Seq<Seq<char>>,
)
    requires
        subscribe_post(r0, r1, tx, cid, conf),
        send_to_post(r1, r2, tx, m, targets),
        contains_id(targets, cid),
    ensures
        reg_has(r2, tx, cid),
        reg_queue(r2, tx, cid) == reg_queue(r1, tx, cid).push(m),
        reg_queue(r2, tx, cid) == (if reg_has(r0, tx, cid) {
            reg_queue(r0, tx, cid)
        } else {
            Seq::<Seq<char>>::empty()
        }).push(conf).push(m),
{
}

/// A subscription made on an open session is reached by the next matching
/// event: the `Active` row it wrote makes its connection a target of the
/// unnarrowed ledger query, and the update lands in its queue right behind
/// the confirmation.
pub proof fn lemma_subscription_receives_matching_event(
    l1: Ledger,
    r0: Registry,
    r1: Registry,
    r2: Registry,
    frame: crate::messages::SubscribeFrame,
    cid: Seq<char>,
    now: Seq<char>,
    conf: Seq<char>,
    m: Seq<char>,
)
    requires
        l1.rows@.len() > 0,
        crate::session::subscription_row_ok(l1.rows@.last(), frame, cid, now),
        subscribe_post(r0, r1, frame.transaction_id@, cid, conf),
        send_to_post(
            r1,
            r2,
            frame.transaction_id@,
            m,
            active_targets(l1.rows@, frame.transaction_id@, None),
        ),
    ensures
        reg_queue(r2, frame.transaction_id@, cid) == (if reg_has(r0, frame.transaction_id@, cid) {
            reg_queue(r0, frame.transaction_id@, cid)
        } else {
            Seq::<Seq<char>>::empty()
        }).push(conf).push(m),
{
    let tx = frame.transaction_id@;
    let targets = active_targets(l1.rows@, tx, None);
    lemma_active_targets_member(l1.rows@, tx, None, cid);
    assert(row_matches(l1.rows@.last(), tx, None));
    assert(l1.rows@[l1.rows@.len() - 1].connection_id@ == cid);
    assert(contains_id(targets, cid));
}

/// Targeted delivery: of two active subscriptions on one transaction id
/// with different subscriber identities, an event naming one subscriber
/// reaches only the matching connection; the other's queue is untouched.
pub proof fn lemma_targeted_delivery(
    rows: Seq<Subscription>,
    tx: Seq<char>,
    f: Seq<char>,
    c1: Seq<char>,
    c2: Seq<char>,
    r0: Registry,
    r1: Registry,
    m: Seq<char>,
)
    requires
        exists|i: int|
            0 <= i < rows.len() && row_matches(rows[i], tx, Some(f)) && rows[i].connection_id@
                == c1,
        forall|i: int|
            0 <= i < rows.len() && rows[i].connection_id@ == c2 ==> !row_matches(
                rows[i],
                tx,
                Some(f),
            ),
        reg_has(r0, tx, c1),
        send_to_post(r0, r1, tx, m, active_targets(rows, tx, Some(f))),
    ensures
        reg_queue(r1, tx, c1) == reg_queue(r0, tx, c1).push(m),
        reg_queue(r1, tx, c2) == reg_queue(r0, tx, c2),
{
    lemma_active_targets_member(rows, tx, Some(f), c1);
    lemma_active_targets_member(rows, tx, Some(f), c2);
}

/// Fallback to the unnarrowed query: an active subscription with no
/// subscriber identity recorded still receives an event that names no
/// subscriber filter.
pub proof fn lemma_unfiltered_delivery(
    rows: Seq<Subscription>,
    tx: Seq<char>,
    c: Seq<char>,
    r0: Registry,
    r1: Registry,
    m: Seq<char>,
)
    requires
        exists|i: int|
            0 <= i < rows.len() && row_matches(rows[i], tx, None) && rows[i].connection_id@ == c,
        reg_has(r0, tx, c),
        send_to_post(r0, r1, tx, m, active_targets(rows, tx, None)),
    ensures
        reg_queue(r1, tx, c) == reg_queue(r0, tx, c).push(m),
{
    lemma_active_targets_member(rows, tx, None, c);
}

/// Fallback broadcast: with no ledger to narrow the targets, every
/// connection registered under the transaction id receives the update.
pub proof fn lemma_fallback_broadcast(
    r0: Registry,
    r1: Registry,
    tx: Seq<char>,
    m: Seq<char>,
    c: Seq<char>,
)
    requires
        reg_has(r0, tx, c),
        broadcast_post(r0, r1, tx, m),
    ensures
        reg_queue(r1, tx, c) == reg_queue(r0, tx, c).push(m),
{
}

/// Session teardown excludes the connection from every later
/// active-subscription query: after its rows are marked inactive, no
/// query for any transaction id and any filter names it again.
pub proof fn lemma_closed_connection_excluded(
    l0: Ledger,
    l1: Ledger,
    cid: Seq<char>,
    now: Seq<char>,
    tx: Seq<char>,
    f: Option<Seq<char>>,
)
    requires
        set_inactive_post(l0, l1, cid, now),
    ensures
        !contains_id(active_targets(l1.rows@, tx, f), cid),
{
    lemma_active_targets_member(l1.rows@, tx, f, cid);
    if contains_id(active_targets(l1.rows@, tx, f), cid) {
        let i = choose|i: int|
            0 <= i < l1.rows@.len() && row_matches(l1.rows@[i], tx, f)
                && l1.rows@[i].connection_id@ == cid;
        if l0.rows@[i].connection_id@ == cid {
            assert(deactivated(l0.rows@[i], l1.rows@[i], now));
            assert(!row_matches(l1.rows@[i], tx, f));
        } else {
            assert(l1.rows@[i] == l0.rows@[i]);
        }
        assert(false);
    }
}

/// Two deliveries with identical content still append two rows: the store
/// never merges or deduplicates, whatever the rows hold.
pub proof fn lemma_no_dedup(
    rows: Seq<PaymentEventRecord>,
    r1: PaymentEventRecord,
    r2: PaymentEventRecord,
)
    ensures
        rows.push(r1).push(r2).len() == rows.len() + 2,
        rows.push(r1).push(r2)[rows.len() as int] == r1,
        rows.push(r1).push(r2)[rows.len() as int + 1] == r2,
{
}

/// An event outside the payment lifecycle is acknowledged and dropped:
/// dispatching it persists nothing and leaves every registration and
/// queue exactly as it was.
pub proof fn lemma_non_lifecycle_no_effects(
    ev: VerifiedEvent,
    rows: Option<Seq<Subscription>>,
    r0: Registry,
    r1: Registry,
    outcome: DispatchOutcome,
    rid: Seq<char>,
    ts: Seq<char>,
)
    requires
        dispatch_post(ev, rows, r0, r1, outcome, rid, ts),
        !spec_is_lifecycle(ev.kind),
    ensures
        outcome is Ignored,
        r1 == r0,
{
}

/// A registration, once made, survives every later registration under the
/// same transaction id.
proof fn lemma_registered_stays(
    states: Seq<Registry>,
    cids: Seq<Seq<char>>,
    tx: Seq<char>,
    c: Seq<char>,
    k: int,
)
    requires
        states.len() == cids.len() + 1,
        0 <= k <= cids.len(),
        reg_has(states[k], tx, c),
        forall|i: int|
            0 <= i < cids.len() ==> register_post(states[i], states[i + 1], tx, cids[i]),
    ensures
        reg_has(states[cids.len() as int], tx, c),
    decreases cids.len() - k,
{
    if k < cids.len() {
        assert(register_post(states[k], states[k + 1], tx, cids[k]));
        if c == cids[k] {
            assert(reg_has(states[k + 1], tx, c));
        } else {
            assert(reg_has(states[k + 1], tx, c) == reg_has(states[k], tx, c));
        }
        lemma_registered_stays(states, cids, tx, c, k + 1);
    }
}

/// Any number of subscribe calls for one transaction id, in any
/// interleaving the registry's lock admits, leave every one of the
/// connections registered; a broadcast sent after all of them then appends
/// the message to every one of their queues.
pub proof fn lemma_concurrent_registrations(
    states: Seq<Registry>,
    cids: Seq<Seq<char>>,
    tx: Seq<char>,
    after: Registry,
    m: Seq<char>,
)
    requires
        states.len() == cids.len() + 1,
        forall|i: int|
            0 <= i < cids.len() ==> register_post(states[i], states[i + 1], tx, cids[i]),
        broadcast_post(states[cids.len() as int], after, tx, m),
    ensures
        forall|i: int| 0 <= i < cids.len() ==> reg_has(states[cids.len() as int], tx, cids[i]),
        forall|i: int|
            0 <= i < cids.len() ==> reg_queue(after, tx, cids[i]) == reg_queue(
                states[cids.len() as int],
                tx,
                cids[i],
            ).push(m),
{
    assert forall|i: int| 0 <= i < cids.len() implies reg_has(
        states[cids.len() as int],
        tx,
        cids[i],
    ) by {
        assert(register_post(states[i], states[i + 1], tx, cids[i]));
        lemma_registered_stays(states, cids, tx, cids[i], i + 1);
    }
}

} // verus!
