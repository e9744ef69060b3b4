//! Connection ledger: the durable record of accepted subscriptions.  Rows
//! are only ever appended or moved from `Active` to `Inactive`, never
//! deleted, and the active-row query is specified exactly.

use vstd::prelude::*;

verus! {

/// Lifecycle of a subscription row: `Active` from creation until its socket
/// closes, `Inactive` afterwards, never back.
pub enum SubscriptionStatus {
    Active,
    Inactive,
}

/// One durable subscription row: a connection id bound to the transaction
/// id it wants updates for, with an optional subscriber identity.
pub struct Subscription {
    pub id: String,
    pub transaction_id: String,
    pub connection_id: String,
    pub created_at: String,
    pub updated_at: String,
    pub subscriber_id: Option<String>,
    pub subscriber_contact: Option<String>,
    pub status: SubscriptionStatus,
}

/// The ledger: an append-only sequence of subscription rows.
pub struct Ledger {
    pub rows: Vec<Subscription>,
}

/// The view of an optional subscriber identity.
pub open spec fn opt_view(o: Option<String>) -> Option<Seq<char>> {
    match o {
        None => None,
        Some(s) => Some(s@),
    }
}

/// Whether a row answers an active-subscription query for `tx`, narrowed to
/// a subscriber identity when `filter` names one.
pub open spec fn row_matches(s: Subscription, tx: Seq<char>, filter: Option<Seq<char>>) -> bool {
    &&& s.transaction_id@ == tx
    &&& s.status is Active
    &&& match filter {
        None => true,
        Some(f) => opt_view(s.subscriber_id) == Some(f),
    }
}

/// The connection ids of the rows answering an active-subscription query,
/// in row order.
pub open spec fn active_targets(
    rows: Seq<Subscription>,
    tx: Seq<char>,
    filter: Option<Seq<char>>,
) -> Seq<Seq<char>>
    decreases rows.len(),
{
    if rows.len() == 0 {
        Seq::empty()
    } else {
        (if row_matches(rows[0], tx, filter) {
            seq![rows[0].connection_id@]
        } else {
            Seq::<Seq<char>>::empty()
        }) + active_targets(rows.drop_first(), tx, filter)
    }
}

/// The rows answering an active-subscription query, in ledger order: the
/// query returns exactly these rows, field for field.
pub open spec fn active_rows(
    rows: Seq<Subscription>,
    tx: Seq<char>,
    filter: Option<Seq<char>>,
) -> Seq<Subscription>
    decreases rows.len(),
{
    if rows.len() == 0 {
        Seq::empty()
    } else {
        (if row_matches(rows[0], tx, filter) {
            seq![rows[0]]
        } else {
            Seq::<Subscription>::empty()
        }) + active_rows(rows.drop_first(), tx, filter)
    }
}

pub proof fn lemma_active_rows_push(
    rows: Seq<Subscription>,
    r: Subscription,
    tx: Seq<char>,
    filter: Option<Seq<char>>,
)
    ensures
        active_rows(rows.push(r), tx, filter) == active_rows(rows, tx, filter) + (
        if row_matches(r, tx, filter) {
            seq![r]
        } else {
            Seq::<Subscription>::empty()
        }),
    decreases rows.len(),
{
    let t = rows.push(r);
    let tail = if row_matches(r, tx, filter) {
        seq![r]
    } else {
        Seq::<Subscription>::empty()
    };
    if rows.len() == 0 {
        reveal_with_fuel(active_rows, 2);
        assert(t[0] == r);
        assert(t.drop_first() =~= Seq::<Subscription>::empty());
        assert(active_rows(t, tx, filter) =~= active_rows(rows, tx, filter) + tail);
    } else {
        assert(t[0] == rows[0]);
        assert(t.drop_first() =~= rows.drop_first().push(r));
        lemma_active_rows_push(rows.drop_first(), r, tx, filter);
        assert(active_rows(t, tx, filter) =~= active_rows(rows, tx, filter) + tail);
    }
}

pub proof fn lemma_active_targets_push(
    rows: Seq<Subscription>,
    r: Subscription,
    tx: Seq<char>,
    filter: Option<Seq<char>>,
)
    ensures
        active_targets(rows.push(r), tx, filter) == active_targets(rows, tx, filter) + (
        if row_matches(r, tx, filter) {
            seq![r.connection_id@]
        } else {
            Seq::<Seq<char>>::empty()
        }),
    decreases rows.len(),
{
    let t = rows.push(r);
    let tail = if row_matches(r, tx, filter) {
        seq![r.connection_id@]
    } else {
        Seq::<Seq<char>>::empty()
    };
    if rows.len() == 0 {
        reveal_with_fuel(active_targets, 2);
        assert(t[0] == r);
        assert(t.drop_first() =~= Seq::<Subscription>::empty());
        assert(active_targets(t, tx, filter) =~= active_targets(rows, tx, filter) + tail);
    } else {
        assert(t[0] == rows[0]);
        assert(t.drop_first() =~= rows.drop_first().push(r));
        lemma_active_targets_push(rows.drop_first(), r, tx, filter);
        assert(active_targets(t, tx, filter) =~= active_targets(rows, tx, filter) + tail);
    }
}

/// A connection id is among the query's targets exactly when some row of
/// the ledger carries it and answers the query.
pub proof fn lemma_active_targets_member(
    rows: Seq<Subscription>,
    tx: Seq<char>,
    filter: Option<Seq<char>>,
    c: Seq<char>,
)
    ensures
        crate::registry::contains_id(active_targets(rows, tx, filter), c) <==> exists|i: int|
            0 <= i < rows.len() && row_matches(rows[i], tx, filter) && rows[i].connection_id@ == c,
    decreases rows.len(),
{
    let ts = active_targets(rows, tx, filter);
    if rows.len() == 0 {
    } else {
        let rest = active_targets(rows.drop_first(), tx, filter);
        lemma_active_targets_member(rows.drop_first(), tx, filter, c);
        let head = if row_matches(rows[0], tx, filter) {
            seq![rows[0].connection_id@]
        } else {
            Seq::<Seq<char>>::empty()
        };
        assert(ts == head + rest);
        if crate::registry::contains_id(ts, c) {
            let i = choose|i: int| 0 <= i < ts.len() && ts[i] == c;
            if i < head.len() {
                assert(row_matches(rows[0], tx, filter) && rows[0].connection_id@ == c);
            } else {
                assert(rest[i - head.len()] == c);
                assert(crate::registry::contains_id(rest, c));
                let k = choose|k: int|
                    0 <= k < rows.drop_first().len() && row_matches(
                        rows.drop_first()[k],
                        tx,
                        filter,
                    ) && rows.drop_first()[k].connection_id@ == c;
                assert(rows.drop_first()[k] == rows[k + 1]);
            }
        }
        if exists|i: int|
            0 <= i < rows.len() && row_matches(rows[i], tx, filter) && rows[i].connection_id@
                == c {
            let i = choose|i: int|
                0 <= i < rows.len() && row_matches(rows[i], tx, filter) && rows[i].connection_id@
                    == c;
            if i == 0 {
                assert(ts[0] == c);
            } else {
                assert(rows.drop_first()[i - 1] == rows[i]);
                assert(crate::registry::contains_id(rest, c));
                let k = choose|k: int| 0 <= k < rest.len() && rest[k] == c;
                assert(ts[head.len() + k] == c);
            }
        }
    }
}

impl Subscription {
    /// A field-for-field copy of the row.
    pub fn duplicate(&self) -> (r: Subscription)
        ensures
            r == *self,
    {
        Subscription {
            id: self.id.clone(),
            transaction_id: self.transaction_id.clone(),
            connection_id: self.connection_id.clone(),
            created_at: self.created_at.clone(),
            updated_at: self.updated_at.clone(),
            subscriber_id: clone_opt(&self.subscriber_id),
            subscriber_contact: clone_opt(&self.subscriber_contact),
            status: match &self.status {
                SubscriptionStatus::Active => SubscriptionStatus::Active,
                SubscriptionStatus::Inactive => SubscriptionStatus::Inactive,
            },
        }
    }
}

/// A field-for-field copy of an optional string.
pub fn clone_opt(o: &Option<String>) -> (r: Option<String>)
    ensures
        r == *o,
{
    match o {
        None => None,
        Some(s) => Some(s.clone()),
    }
}

/// How `set_inactive` rewrites a row of the closed connection: the status
/// becomes `Inactive`, the update stamp becomes `now`, every other field is
/// kept.
pub open spec fn deactivated(a: Subscription, b: Subscription, now: Seq<char>) -> bool {
    b == (Subscription { status: SubscriptionStatus::Inactive, updated_at: b.updated_at, ..a })
        && b.updated_at@ == now
}

/// What `set_inactive` promises: rows of the closed connection are
/// rewritten as `deactivated` says, all other rows are untouched, no row
/// appears or disappears.
pub open spec fn set_inactive_post(l0: Ledger, l1: Ledger, cid: Seq<char>, now: Seq<char>) -> bool {
    &&& l1.rows@.len() == l0.rows@.len()
    &&& forall|i: int|
        0 <= i < l0.rows@.len() && l0.rows@[i].connection_id@ == cid ==> deactivated(
            l0.rows@[i],
            l1.rows@[i],
            now,
        )
    &&& forall|i: int|
        0 <= i < l0.rows@.len() && l0.rows@[i].connection_id@ != cid ==> l1.rows@[i] == l0.rows@[i]
}

impl Ledger {
    /// A ledger with no rows.
    pub fn new() -> (l: Ledger)
        ensures
            l.rows@.len() == 0,
    {
        Ledger { rows: Vec::new() }
    }

    /// Appends a subscription row; nothing else changes (audit trail: rows
    /// are never deleted).
    pub fn insert(&mut self, row: Subscription)
        ensures
            final(self).rows@ == old(self).rows@.push(row),
    {
        self.rows.push(row);
    }

    /// Marks every row of connection `cid` inactive, stamping the update
    /// time; all other rows and all other fields are untouched.
    pub fn set_inactive(&mut self, cid: &String, now: &String)
        ensures
            set_inactive_post(*old(self), *final(self), cid@, now@),
    {
        let ghost s0 = self.rows@;
        let n = self.rows.len();
        let mut j: usize = 0;
        while j < n
            invariant
                n == self.rows@.len(),
                s0.len() == n,
                j <= n,
                forall|k: int| j <= k < n ==> self.rows@[k] == s0[k],
                forall|k: int|
                    0 <= k < j && s0[k].connection_id@ == cid@ ==> deactivated(
                        s0[k],
                        self.rows@[k],
                        now@,
                    ),
                forall|k: int| 0 <= k < j && s0[k].connection_id@ != cid@ ==> self.rows@[k] == s0[k],
            decreases n - j,
        {
            if self.rows[j].connection_id == *cid {
                self.rows[j].status = SubscriptionStatus::Inactive;
                self.rows[j].updated_at = now.clone();
            }
            j = j + 1;
        }
    }

    /// The rows answering an active-subscription query for `tx`, narrowed
    /// to a subscriber identity when `filter` names one: field-for-field
    /// copies of exactly the matching ledger rows, in ledger order.
    pub fn query_active(&self, tx: &String, filter: Option<&String>) -> (r: Vec<Subscription>)
        ensures
            r@ == active_rows(self.rows@, tx@, opt_ref_view(filter)),
            forall|i: int|
                0 <= i < r@.len() ==> row_matches(r@[i], tx@, opt_ref_view(filter)),
            connection_ids_of(r@) == active_targets(self.rows@, tx@, opt_ref_view(filter)),
    {
        let ghost fv = opt_ref_view(filter);
        let n = self.rows.len();
        let mut r: Vec<Subscription> = Vec::new();
        let mut j: usize = 0;
        while j < n
            invariant
                n == self.rows@.len(),
                j <= n,
                fv == opt_ref_view(filter),
                forall|i: int| 0 <= i < r@.len() ==> row_matches(r@[i], tx@, fv),
                r@ =~= active_rows(self.rows@.take(j as int), tx@, fv),
                connection_ids_of(r@) =~= active_targets(self.rows@.take(j as int), tx@, fv),
            decreases n - j,
        {
            let ghost taken = self.rows@.take(j as int);
            let ghost r0 = r@;
            let row = &self.rows[j];
            let hit = row_hit(row, tx, filter);
            proof {
                assert(hit == row_matches(self.rows@[j as int], tx@, fv));
                lemma_active_targets_push(taken, self.rows@[j as int], tx@, fv);
                lemma_active_rows_push(taken, self.rows@[j as int], tx@, fv);
                assert(taken.push(self.rows@[j as int]) =~= self.rows@.take(j as int + 1));
            }
            if hit {
                let dup = row.duplicate();
                let ghost dv = dup;
                r.push(dup);
                proof {
                    assert(r@ == r0.push(dv));
                    assert(dv == self.rows@[j as int]);
                    assert(row_matches(dv, tx@, fv));
                    assert(r0.push(dv) =~= r0 + seq![dv]);
                    assert(r@ =~= active_rows(self.rows@.take(j as int + 1), tx@, fv));
                    lemma_connection_ids_push(r0, dv);
                    assert(active_targets(self.rows@.take(j as int + 1), tx@, fv) == active_targets(
                        taken,
                        tx@,
                        fv,
                    ) + seq![dv.connection_id@]);
                    assert(connection_ids_of(r0).push(dv.connection_id@) =~= connection_ids_of(r0)
                        + seq![dv.connection_id@]);
                    assert(connection_ids_of(r@) =~= active_targets(
                        self.rows@.take(j as int + 1),
                        tx@,
                        fv,
                    ));
                    assert forall|i: int| 0 <= i < r@.len() implies row_matches(r@[i], tx@, fv) by {
                        if i < r0.len() {
                            assert(r@[i] == r0[i]);
                        } else {
                            assert(r@[i] == dv);
                        }
                    }
                }
            } else {
                proof {
                    assert(active_targets(self.rows@.take(j as int + 1), tx@, fv) == active_targets(
                        taken,
                        tx@,
                        fv,
                    ) + Seq::<Seq<char>>::empty());
                    assert(active_targets(taken, tx@, fv) + Seq::<Seq<char>>::empty()
                        =~= active_targets(taken, tx@, fv));
                    assert(active_rows(self.rows@.take(j as int + 1), tx@, fv) == active_rows(
                        taken,
                        tx@,
                        fv,
                    ) + Seq::<Subscription>::empty());
                    assert(active_rows(taken, tx@, fv) + Seq::<Subscription>::empty()
                        =~= active_rows(taken, tx@, fv));
                }
            }
            j = j + 1;
        }
        proof {
            assert(self.rows@.take(n as int) =~= self.rows@);
        }
        r
    }
}

/// Whether a single row answers the active-subscription query.
fn row_hit(row: &Subscription, tx: &String, filter: Option<&String>) -> (b: bool)
    ensures
        b == row_matches(*row, tx@, opt_ref_view(filter)),
{
    if !(row.transaction_id == *tx) {
        return false;
    }
    let active = match &row.status {
        SubscriptionStatus::Active => true,
        SubscriptionStatus::Inactive => false,
    };
    if !active {
        return false;
    }
    match filter {
        None => true,
        Some(f) => match &row.subscriber_id {
            Some(s) => *s == *f,
            None => false,
        },
    }
}

/// The view of an optional borrowed filter.
pub open spec fn opt_ref_view(o: Option<&String>) -> Option<Seq<char>> {
    match o {
        None => None,
        Some(s) => Some(s@),
    }
}

/// The connection ids carried by a sequence of rows, in order.
pub open spec fn connection_ids_of(rows: Seq<Subscription>) -> Seq<Seq<char>>
    decreases rows.len(),
{
    if rows.len() == 0 {
        Seq::empty()
    } else {
        seq![rows[0].connection_id@] + connection_ids_of(rows.drop_first())
    }
}

pub proof fn lemma_connection_ids_push(rows: Seq<Subscription>, r: Subscription)
    ensures
        connection_ids_of(rows.push(r)) == connection_ids_of(rows).push(r.connection_id@),
    decreases rows.len(),
{
    let t = rows.push(r);
    if rows.len() == 0 {
        reveal_with_fuel(connection_ids_of, 2);
        assert(t[0] == r);
        assert(t.drop_first() =~= Seq::<Subscription>::empty());
        assert(connection_ids_of(t) =~= connection_ids_of(rows).push(r.connection_id@));
    } else {
        assert(t[0] == rows[0]);
        assert(t.drop_first() =~= rows.drop_first().push(r));
        lemma_connection_ids_push(rows.drop_first(), r);
        assert(connection_ids_of(t) =~= connection_ids_of(rows).push(r.connection_id@));
    }
}

/// Extracts the connection ids of a row list, in order.
pub fn connection_ids(rows: &Vec<Subscription>) -> (r: Vec<String>)
    ensures
        r.deep_view() == connection_ids_of(rows@),
{
    let n = rows.len();
    let mut r: Vec<String> = Vec::new();
    let mut j: usize = 0;
    while j < n
        invariant
            n == rows@.len(),
            j <= n,
            r.deep_view() =~= connection_ids_of(rows@.take(j as int)),
        decreases n - j,
    {
        let ghost r0 = r.deep_view();
        r.push(rows[j].connection_id.clone());
        proof {
            assert(r.deep_view() =~= r0.push(rows@[j as int].connection_id@));
            lemma_connection_ids_push(rows@.take(j as int), rows@[j as int]);
            assert(rows@.take(j as int).push(rows@[j as int]) =~= rows@.take(j as int + 1));
        }
        j = j + 1;
    }
    proof {
        assert(rows@.take(n as int) =~= rows@);
    }
    r
}

} // verus!
