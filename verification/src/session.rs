//! Socket sessions: the per-connection state machine, the handling of a
//! client's subscribe request, and teardown.
//!
//! A session moves `Connecting → Open → Closing → Closed` and never back.
//! In the `Open` phase a well-formed subscribe frame registers the
//! connection's outbound queue, records a durable subscription row, and
//! queues the confirmation; teardown removes the connection from the
//! registry and marks its ledger rows inactive.

use vstd::prelude::*;

use crate::idgen::new_token;
use crate::ledger::{set_inactive_post, Ledger, Subscription, SubscriptionStatus};
use crate::messages::{build_confirmation, spec_confirmation_message, SubscribeFrame};
use crate::registry::{contains_id, reg_has, reg_queue, remove_post, Registry};

verus! {

/// The phases of a socket session, in the order they are reached.
pub enum SessionPhase {
    Connecting,
    Open,
    Closing,
    Closed,
}

/// The position of a phase in the session's one-way lifecycle.
pub open spec fn phase_rank(p: SessionPhase) -> int {
    match p {
        SessionPhase::Connecting => 0,
        SessionPhase::Open => 1,
        SessionPhase::Closing => 2,
        SessionPhase::Closed => 3,
    }
}

/// One socket session: its opaque connection token and its phase.
pub struct Session {
    pub connection_id: String,
    pub phase: SessionPhase,
}

impl Session {
    /// A session for a freshly accepted socket, with a fresh connection
    /// token of the usual 36 characters.
    pub fn connect() -> (s: Session)
        ensures
            s.phase is Connecting,
            s.connection_id@.len() == 36,
    {
        Session { connection_id: new_token(), phase: SessionPhase::Connecting }
    }

    /// Both duties are scheduled: the session is open.
    pub fn open(&mut self)
        requires
            old(self).phase is Connecting,
        ensures
            final(self).phase is Open,
            final(self).connection_id == old(self).connection_id,
            phase_rank(old(self).phase) <= phase_rank(final(self).phase),
    {
        self.phase = SessionPhase::Open;
    }

    /// One duty reached a terminal condition; the sibling is to be
    /// cancelled cooperatively.
    pub fn begin_closing(&mut self)
        requires
            old(self).phase is Open,
        ensures
            final(self).phase is Closing,
            final(self).connection_id == old(self).connection_id,
            phase_rank(old(self).phase) <= phase_rank(final(self).phase),
    {
        self.phase = SessionPhase::Closing;
    }
}

/// The subscription row that a subscribe request writes: a fresh id,
/// the frame's transaction id and optional subscriber identity, this
/// connection's token, both stamps at `now`, status `Active`.
pub open spec fn subscription_row_ok(
    row: Subscription,
    frame: SubscribeFrame,
    cid: Seq<char>,
    now: Seq<char>,
) -> bool {
    &&& row.id@.len() == 36
    &&& row.transaction_id == frame.transaction_id
    &&& row.connection_id@ == cid
    &&& row.created_at@ == now
    &&& row.updated_at@ == now
    &&& row.subscriber_id == frame.subscriber_id
    &&& row.subscriber_contact == frame.subscriber_contact
    &&& row.status is Active
}

/// What handling a subscribe request promises: the pair is registered and
/// its queue ends with the confirmation, no other registration or queue is
/// touched, and exactly one row as `subscription_row_ok` says is appended
/// to the ledger.
pub open spec fn subscribe_post(
    r0: Registry,
    r1: Registry,
    tx: Seq<char>,
    cid: Seq<char>,
    conf: Seq<char>,
) -> bool {
    &&& reg_has(r1, tx, cid)
    &&& reg_queue(r1, tx, cid) == (if reg_has(r0, tx, cid) {
        reg_queue(r0, tx, cid)
    } else {
        Seq::<Seq<char>>::empty()
    }).push(conf)
    &&& forall|t: Seq<char>, c: Seq<char>|
        t != tx || c != cid ==> reg_has(r1, t, c) == reg_has(r0, t, c)
    &&& forall|t: Seq<char>, c: Seq<char>|
        t != tx || c != cid ==> reg_queue(r1, t, c) == reg_queue(r0, t, c)
}

/// Handles a well-formed subscribe request on an open session: registers
/// this connection's outbound queue under the transaction id, appends an
/// `Active` subscription row, and queues the confirmation message back to
/// the client.
pub fn handle_subscribe(
    session: &Session,
    frame: &SubscribeFrame,
    registry: &mut Registry,
    ledger: &mut Ledger,
    now: &String,
) -> (confirmation: String)
    requires
        session.phase is Open,
    ensures
        confirmation@ == spec_confirmation_message(frame.transaction_id@),
        subscribe_post(
            *old(registry),
            *final(registry),
            frame.transaction_id@,
            session.connection_id@,
            confirmation@,
        ),
        final(ledger).rows@.len() == old(ledger).rows@.len() + 1,
        forall|i: int|
            0 <= i < old(ledger).rows@.len() ==> final(ledger).rows@[i] == old(ledger).rows@[i],
        subscription_row_ok(
            final(ledger).rows@.last(),
            *frame,
            session.connection_id@,
            now@,
        ),
{
    let ghost r0 = *registry;
    registry.register(&frame.transaction_id, &session.connection_id);
    let confirmation = build_confirmation(frame.transaction_id.as_str());
    let targets = vec![session.connection_id.clone()];
    let ghost r1 = *registry;
    let _reached = registry.send_to(&frame.transaction_id, &confirmation, &targets);
    proof {
        let tx = frame.transaction_id@;
        let cid = session.connection_id@;
        assert(targets.deep_view() =~= seq![cid]);
        assert(contains_id(targets.deep_view(), cid)) by {
            assert(targets.deep_view()[0] == cid);
        }
        assert forall|t: Seq<char>, c: Seq<char>| t != tx || c != cid implies reg_has(
            *registry,
            t,
            c,
        ) == reg_has(r0, t, c) && reg_queue(*registry, t, c) == reg_queue(r0, t, c) by {
            if t == tx && c != cid {
                assert(!contains_id(targets.deep_view(), c)) by {
                    assert(targets.deep_view().len() == 1);
                }
            }
        }
        assert(subscribe_post(r0, *registry, tx, cid, confirmation@));
    }
    let row = Subscription {
        id: new_token(),
        transaction_id: frame.transaction_id.clone(),
        connection_id: session.connection_id.clone(),
        created_at: now.clone(),
        updated_at: now.clone(),
        subscriber_id: crate::ledger::clone_opt(&frame.subscriber_id),
        subscriber_contact: crate::ledger::clone_opt(&frame.subscriber_contact),
        status: SubscriptionStatus::Active,
    };
    ledger.insert(row);
    confirmation
}

/// Tears a session down: the phase becomes `Closed`, the connection is
/// removed from the registry, and every ledger row of this connection is
/// marked inactive with the update stamp `now`.
pub fn close_session(
    session: &mut Session,
    registry: &mut Registry,
    ledger: &mut Ledger,
    now: &String,
)
    ensures
        final(session).phase is Closed,
        final(session).connection_id == old(session).connection_id,
        phase_rank(old(session).phase) <= phase_rank(final(session).phase),
        remove_post(*old(registry), *final(registry), old(session).connection_id@),
        set_inactive_post(*old(ledger), *final(ledger), old(session).connection_id@, now@),
{
    registry.remove_connection(&session.connection_id);
    ledger.set_inactive(&session.connection_id, now);
    session.phase = SessionPhase::Closed;
}

} // verus!
