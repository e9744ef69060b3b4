//! Client registry: the process-local mapping from a transaction id to the
//! live outbound queues of the sockets subscribed to it.
//!
//! Every mutation is specified against two observers: `reg_has`, whether a
//! connection is registered under a transaction id, and `reg_queue`, the
//! ordered outbound queue of that connection.  Queues only ever grow at the
//! tail, which is what makes first-in-first-out delivery a theorem rather
//! than a hope.

use vstd::prelude::*;

verus! {

/// One registered subscription: a connection's outbound queue, filed under
/// the transaction id it wants updates for.
pub struct RegistryEntry {
    pub transaction_id: String,
    pub connection_id: String,
    pub queue: Vec<String>,
}

/// The registry itself: the set of live registrations of this process.
pub struct Registry {
    pub entries: Vec<RegistryEntry>,
}

/// An error of the delivery step: the transaction id had no registered
/// channel at all.
#[derive(Debug)]
pub enum DeliveryError {
    NoSubscribers,
}

pub open spec fn entry_matches(e: RegistryEntry, tx: Seq<char>, cid: Seq<char>) -> bool {
    e.transaction_id@ == tx && e.connection_id@ == cid
}

/// Index of the first entry for `(tx, cid)`, or `-1` when there is none.
pub open spec fn find_entry(s: Seq<RegistryEntry>, tx: Seq<char>, cid: Seq<char>) -> int
    decreases s.len(),
{
    if s.len() == 0 {
        -1
    } else if entry_matches(s[0], tx, cid) {
        0
    } else {
        let r = find_entry(s.drop_first(), tx, cid);
        if r == -1 {
            -1
        } else {
            r + 1
        }
    }
}

/// Whether connection `cid` is registered under transaction `tx`.
pub open spec fn reg_has(r: Registry, tx: Seq<char>, cid: Seq<char>) -> bool {
    find_entry(r.entries@, tx, cid) >= 0
}

/// The outbound queue of connection `cid` under transaction `tx` (empty
/// when it is not registered).
pub open spec fn reg_queue(r: Registry, tx: Seq<char>, cid: Seq<char>) -> Seq<Seq<char>> {
    let i = find_entry(r.entries@, tx, cid);
    if i >= 0 {
        r.entries@[i].queue.deep_view()
    } else {
        Seq::empty()
    }
}

/// Whether `ids` holds an identifier whose characters are `c`.
pub open spec fn contains_id(ids: Seq<Seq<char>>, c: Seq<char>) -> bool {
    exists|i: int| 0 <= i < ids.len() && ids[i] == c
}

pub proof fn lemma_find_entry_props(s: Seq<RegistryEntry>, tx: Seq<char>, cid: Seq<char>)
    ensures
        -1 <= find_entry(s, tx, cid) < s.len(),
        find_entry(s, tx, cid) >= 0 ==> entry_matches(s[find_entry(s, tx, cid)], tx, cid),
        find_entry(s, tx, cid) >= 0 ==> forall|j: int|
            0 <= j < find_entry(s, tx, cid) ==> !entry_matches(s[j], tx, cid),
        find_entry(s, tx, cid) == -1 ==> forall|j: int|
            0 <= j < s.len() ==> !entry_matches(s[j], tx, cid),
    decreases s.len(),
{
    if s.len() == 0 {
    } else if entry_matches(s[0], tx, cid) {
    } else {
        lemma_find_entry_props(s.drop_first(), tx, cid);
        assert forall|j: int| 1 <= j < s.len() implies s.drop_first()[j - 1] == s[j] by {}
    }
}

pub proof fn lemma_find_entry_first(s: Seq<RegistryEntry>, tx: Seq<char>, cid: Seq<char>, i: int)
    requires
        0 <= i < s.len(),
        entry_matches(s[i], tx, cid),
        forall|j: int| 0 <= j < i ==> !entry_matches(s[j], tx, cid),
    ensures
        find_entry(s, tx, cid) == i,
    decreases s.len(),
{
    if i == 0 {
    } else {
        assert(!entry_matches(s[0], tx, cid));
        assert(s.drop_first()[i - 1] == s[i]);
        assert forall|j: int| 0 <= j < i - 1 implies !entry_matches(s.drop_first()[j], tx, cid) by {
            assert(s.drop_first()[j] == s[j + 1]);
        }
        lemma_find_entry_first(s.drop_first(), tx, cid, i - 1);
    }
}

/// Two entry sequences with the same keys at every index are searched alike.
pub proof fn lemma_find_entry_same_keys(
    s1: Seq<RegistryEntry>,
    s2: Seq<RegistryEntry>,
    tx: Seq<char>,
    cid: Seq<char>,
)
    requires
        s1.len() == s2.len(),
        forall|i: int| 0 <= i < s1.len() ==> s1[i].transaction_id@ == s2[i].transaction_id@
            && s1[i].connection_id@ == s2[i].connection_id@,
    ensures
        find_entry(s1, tx, cid) == find_entry(s2, tx, cid),
    decreases s1.len(),
{
    if s1.len() == 0 {
    } else {
        assert(entry_matches(s1[0], tx, cid) == entry_matches(s2[0], tx, cid));
        assert forall|i: int| 0 <= i < s1.drop_first().len() implies s1.drop_first()[i].transaction_id@
            == s2.drop_first()[i].transaction_id@ && s1.drop_first()[i].connection_id@
            == s2.drop_first()[i].connection_id@ by {
            assert(s1.drop_first()[i] == s1[i + 1]);
            assert(s2.drop_first()[i] == s2[i + 1]);
        }
        lemma_find_entry_same_keys(s1.drop_first(), s2.drop_first(), tx, cid);
    }
}

/// What `register` promises: the pair is registered afterwards, every other
/// registration and queue is untouched, and a fresh registration starts with
/// an empty queue.
pub open spec fn register_post(r0: Registry, r1: Registry, tx: Seq<char>, cid: Seq<char>) -> bool {
    &&& reg_has(r1, tx, cid)
    &&& forall|t: Seq<char>, c: Seq<char>|
        t != tx || c != cid ==> reg_has(r1, t, c) == reg_has(r0, t, c)
    &&& forall|t: Seq<char>, c: Seq<char>|
        t != tx || c != cid ==> reg_queue(r1, t, c) == reg_queue(r0, t, c)
    &&& reg_queue(r1, tx, cid) == if reg_has(r0, tx, cid) {
        reg_queue(r0, tx, cid)
    } else {
        Seq::<Seq<char>>::empty()
    }
}

/// What `broadcast` promises: registrations are untouched, queues under
/// other transaction ids are untouched, and every queue under `tx` has the
/// message appended at its tail.
pub open spec fn broadcast_post(r0: Registry, r1: Registry, tx: Seq<char>, m: Seq<char>) -> bool {
    &&& forall|t: Seq<char>, c: Seq<char>| reg_has(r1, t, c) == reg_has(r0, t, c)
    &&& forall|t: Seq<char>, c: Seq<char>|
        t != tx ==> reg_queue(r1, t, c) == reg_queue(r0, t, c)
    &&& forall|c: Seq<char>|
        reg_has(r0, tx, c) ==> reg_queue(r1, tx, c) == reg_queue(r0, tx, c).push(m)
    &&& forall|c: Seq<char>|
        !reg_has(r0, tx, c) ==> reg_queue(r1, tx, c) == reg_queue(r0, tx, c)
}

/// What `send_to` promises: registrations are untouched, and exactly the
/// queues under `tx` whose connection id is among `targets` have the message
/// appended at their tail.
pub open spec fn send_to_post(
    r0: Registry,
    r1: Registry,
    tx: Seq<char>,
    m: Seq<char>,
    targets: Seq<Seq<char>>,
) -> bool {
    &&& forall|t: Seq<char>, c: Seq<char>| reg_has(r1, t, c) == reg_has(r0, t, c)
    &&& forall|t: Seq<char>, c: Seq<char>|
        t != tx ==> reg_queue(r1, t, c) == reg_queue(r0, t, c)
    &&& forall|c: Seq<char>|
        reg_has(r0, tx, c) && contains_id(targets, c) ==> reg_queue(r1, tx, c) == reg_queue(
            r0,
            tx,
            c,
        ).push(m)
    &&& forall|c: Seq<char>|
        !(reg_has(r0, tx, c) && contains_id(targets, c)) ==> reg_queue(r1, tx, c) == reg_queue(
            r0,
            tx,
            c,
        )
}

/// What `remove_connection` promises: the connection is registered nowhere
/// afterwards, every other registration and queue is untouched.
pub open spec fn remove_post(r0: Registry, r1: Registry, cid: Seq<char>) -> bool {
    &&& forall|t: Seq<char>| !reg_has(r1, t, cid)
    &&& forall|t: Seq<char>, c: Seq<char>| c != cid ==> reg_has(r1, t, c) == reg_has(r0, t, c)
    &&& forall|t: Seq<char>, c: Seq<char>| c != cid ==> reg_queue(r1, t, c) == reg_queue(r0, t, c)
}

impl Registry {
    /// A registry with no registrations at all.
    pub fn new() -> (r: Registry)
        ensures
            r.entries@.len() == 0,
            forall|t: Seq<char>, c: Seq<char>| !reg_has(r, t, c),
    {
        let r = Registry { entries: Vec::new() };
        proof {
            assert forall|t: Seq<char>, c: Seq<char>| !reg_has(r, t, c) by {
                lemma_find_entry_props(r.entries@, t, c);
            }
        }
        r
    }

    fn find_index(&self, tx: &String, cid: &String) -> (res: Option<usize>)
        ensures
            match res {
                Some(i) => i < self.entries@.len() && find_entry(self.entries@, tx@, cid@)
                    == i as int,
                None => find_entry(self.entries@, tx@, cid@) == -1,
            },
    {
        let n = self.entries.len();
        let mut j: usize = 0;
        while j < n
            invariant
                n == self.entries@.len(),
                j <= n,
                forall|k: int| 0 <= k < j ==> !entry_matches(self.entries@[k], tx@, cid@),
            decreases n - j,
        {
            if self.entries[j].transaction_id == *tx && self.entries[j].connection_id == *cid {
                proof {
                    lemma_find_entry_first(self.entries@, tx@, cid@, j as int);
                }
                return Some(j);
            }
            j = j + 1;
        }
        proof {
            lemma_find_entry_props(self.entries@, tx@, cid@);
        }
        None
    }

    /// Adds `(tx, cid)` with an empty outbound queue; registering a pair
    /// that is already present changes nothing.
    pub fn register(&mut self, tx: &String, cid: &String)
        ensures
            register_post(*old(self), *final(self), tx@, cid@),
    {
        let found = self.find_index(tx, cid);
        match found {
            Some(_) => {
                proof {
                    assert(register_post(*self, *self, tx@, cid@));
                }
            },
            None => {
                let ghost s0 = self.entries@;
                let e = RegistryEntry {
                    transaction_id: tx.clone(),
                    connection_id: cid.clone(),
                    queue: Vec::new(),
                };
                self.entries.push(e);
                proof {
                    let s1 = self.entries@;
                    let n = s0.len() as int;
                    lemma_find_entry_props(s0, tx@, cid@);
                    lemma_find_entry_first(s1, tx@, cid@, n);
                    assert(reg_has(*self, tx@, cid@));
                    assert(self.entries@[n].queue.deep_view() =~= Seq::<Seq<char>>::empty());
                    assert forall|t: Seq<char>, c: Seq<char>| t != tx@ || c != cid@ implies
                        find_entry(s1, t, c) == find_entry(s0, t, c) by {
                        lemma_find_entry_props(s0, t, c);
                        lemma_find_entry_props(s1, t, c);
                        let f0 = find_entry(s0, t, c);
                        if f0 >= 0 {
                            assert(s1[f0] == s0[f0]);
                            assert forall|k: int| 0 <= k < f0 implies !entry_matches(s1[k], t, c) by {
                                assert(s1[k] == s0[k]);
                            }
                            lemma_find_entry_first(s1, t, c, f0);
                        } else {
                            if find_entry(s1, t, c) >= 0 {
                                let f1 = find_entry(s1, t, c);
                                if f1 < n {
                                    assert(s1[f1] == s0[f1]);
                                    assert(false);
                                } else {
                                    assert(!entry_matches(s1[n], t, c));
                                    assert(false);
                                }
                            }
                        }
                    }
                    assert forall|t: Seq<char>, c: Seq<char>| t != tx@ || c != cid@ implies
                        reg_queue(*self, t, c) == reg_queue(*old(self), t, c) by {
                        lemma_find_entry_props(s0, t, c);
                        let f0 = find_entry(s0, t, c);
                        if f0 >= 0 {
                            assert(s1[f0] == s0[f0]);
                        }
                    }
                }
            },
        }
    }

    /// Appends `msg` to the queue of every connection registered under
    /// `tx`, and hands back their connection ids; fails exactly when no
    /// connection at all is registered under `tx`.
    pub fn broadcast(&mut self, tx: &String, msg: &String) -> (res: Result<
        Vec<String>,
        DeliveryError,
    >)
        ensures
            broadcast_post(*old(self), *final(self), tx@, msg@),
            res is Err <==> (forall|c: Seq<char>| !reg_has(*old(self), tx@, c)),
            res matches Ok(d) ==> forall|c: Seq<char>|
                contains_id(d.deep_view(), c) == reg_has(*old(self), tx@, c),
    {
        let ghost s0 = self.entries@;
        let n = self.entries.len();
        let mut delivered: Vec<String> = Vec::new();
        let mut j: usize = 0;
        while j < n
            invariant
                n == self.entries@.len(),
                s0.len() == n,
                j <= n,
                forall|k: int| 0 <= k < n ==> self.entries@[k].transaction_id@
                    == s0[k].transaction_id@ && self.entries@[k].connection_id@
                    == s0[k].connection_id@,
                forall|k: int| j <= k < n ==> self.entries@[k] == s0[k],
                forall|k: int| 0 <= k < j && s0[k].transaction_id@ == tx@
                    ==> self.entries@[k].queue.deep_view() == s0[k].queue.deep_view().push(msg@),
                forall|k: int| 0 <= k < j && s0[k].transaction_id@ != tx@
                    ==> self.entries@[k] == s0[k],
                forall|c: Seq<char>| contains_id(delivered.deep_view(), c) == (exists|k: int|
                    0 <= k < j && s0[k].transaction_id@ == tx@ && s0[k].connection_id@ == c),
            decreases n - j,
        {
            if self.entries[j].transaction_id == *tx {
                let ghost d0 = delivered.deep_view();
                let cid_copy = self.entries[j].connection_id.clone();
                delivered.push(cid_copy);
                let ghost q0 = self.entries@[j as int].queue.deep_view();
                let m = msg.clone();
                self.entries[j].queue.push(m);
                proof {
                    assert(self.entries@[j as int].queue.deep_view() =~= q0.push(msg@));
                    assert(delivered.deep_view() =~= d0.push(s0[j as int].connection_id@));
                    assert forall|c: Seq<char>| contains_id(delivered.deep_view(), c)
                        == (exists|k: int| 0 <= k < j + 1 && s0[k].transaction_id@ == tx@
                        && s0[k].connection_id@ == c) by {
                        let dv = delivered.deep_view();
                        if contains_id(dv, c) {
                            let i = choose|i: int| 0 <= i < dv.len() && dv[i] == c;
                            if i < d0.len() {
                                assert(contains_id(d0, c));
                            }
                        }
                        if exists|k: int| 0 <= k < j + 1 && s0[k].transaction_id@ == tx@
                            && s0[k].connection_id@ == c {
                            let k = choose|k: int| 0 <= k < j + 1 && s0[k].transaction_id@ == tx@
                                && s0[k].connection_id@ == c;
                            if k < j {
                                assert(contains_id(d0, c));
                                let i = choose|i: int| 0 <= i < d0.len() && d0[i] == c;
                                assert(dv[i] == c);
                            } else {
                                assert(dv[dv.len() - 1] == c);
                            }
                        }
                    }
                }
            } else {
                proof {
                    assert forall|c: Seq<char>| contains_id(delivered.deep_view(), c)
                        == (exists|k: int| 0 <= k < j + 1 && s0[k].transaction_id@ == tx@
                        && s0[k].connection_id@ == c) by {
                        if exists|k: int| 0 <= k < j + 1 && s0[k].transaction_id@ == tx@
                            && s0[k].connection_id@ == c {
                            let k = choose|k: int| 0 <= k < j + 1 && s0[k].transaction_id@ == tx@
                                && s0[k].connection_id@ == c;
                            assert(k < j);
                        }
                    }
                }
            }
            j = j + 1;
        }
        proof {
            lemma_broadcast_shape(s0, self.entries@, *old(self), *self, tx@, msg@);
        }
        if delivered.len() == 0 {
            proof {
                assert forall|c: Seq<char>| !reg_has(*old(self), tx@, c) by {
                    lemma_find_entry_props(s0, tx@, c);
                    if find_entry(s0, tx@, c) >= 0 {
                        let f = find_entry(s0, tx@, c);
                        assert(s0[f].transaction_id@ == tx@ && s0[f].connection_id@ == c);
                        assert(contains_id(delivered.deep_view(), c));
                    }
                }
            }
            Err(DeliveryError::NoSubscribers)
        } else {
            proof {
                let c0 = delivered.deep_view()[0];
                assert(contains_id(delivered.deep_view(), c0));
                let k = choose|k: int| 0 <= k < n && s0[k].transaction_id@ == tx@
                    && s0[k].connection_id@ == c0;
                lemma_find_entry_props(s0, tx@, c0);
                if find_entry(s0, tx@, c0) == -1 {
                    assert(!entry_matches(s0[k], tx@, c0));
                    assert(false);
                }
                assert forall|c: Seq<char>| contains_id(delivered.deep_view(), c)
                    == reg_has(*old(self), tx@, c) by {
                    lemma_find_entry_props(s0, tx@, c);
                    if contains_id(delivered.deep_view(), c) {
                        let k2 = choose|k2: int| 0 <= k2 < n && s0[k2].transaction_id@ == tx@
                            && s0[k2].connection_id@ == c;
                        if find_entry(s0, tx@, c) == -1 {
                            assert(!entry_matches(s0[k2], tx@, c));
                            assert(false);
                        }
                    }
                    if reg_has(*old(self), tx@, c) {
                        let f = find_entry(s0, tx@, c);
                        assert(s0[f].transaction_id@ == tx@ && s0[f].connection_id@ == c);
                    }
                }
            }
            Ok(delivered)
        }
    }
    /// Appends `msg` to the queues under `tx` whose connection id is among
    /// `targets`; ids that are not currently registered are skipped in
    /// silence (the subscriber went away between ledger write and
    /// dispatch).  Hands back the connection ids actually reached.
    pub fn send_to(&mut self, tx: &String, msg: &String, targets: &Vec<String>) -> (delivered: Vec<
        String,
    >)
        ensures
            send_to_post(*old(self), *final(self), tx@, msg@, targets.deep_view()),
            forall|c: Seq<char>| contains_id(delivered.deep_view(), c) == (reg_has(
                *old(self),
                tx@,
                c,
            ) && contains_id(targets.deep_view(), c)),
    {
        let ghost s0 = self.entries@;
        let n = self.entries.len();
        let mut delivered: Vec<String> = Vec::new();
        let mut j: usize = 0;
        while j < n
            invariant
                n == self.entries@.len(),
                s0.len() == n,
                j <= n,
                forall|k: int| 0 <= k < n ==> self.entries@[k].transaction_id@
                    == s0[k].transaction_id@ && self.entries@[k].connection_id@
                    == s0[k].connection_id@,
                forall|k: int| j <= k < n ==> self.entries@[k] == s0[k],
                forall|k: int| 0 <= k < j && s0[k].transaction_id@ == tx@ && contains_id(
                    targets.deep_view(),
                    s0[k].connection_id@,
                ) ==> self.entries@[k].queue.deep_view() == s0[k].queue.deep_view().push(msg@),
                forall|k: int| 0 <= k < j && !(s0[k].transaction_id@ == tx@ && contains_id(
                    targets.deep_view(),
                    s0[k].connection_id@,
                )) ==> self.entries@[k] == s0[k],
                forall|c: Seq<char>| contains_id(delivered.deep_view(), c) == (exists|k: int|
                    0 <= k < j && s0[k].transaction_id@ == tx@ && s0[k].connection_id@ == c
                    && contains_id(targets.deep_view(), c)),
            decreases n - j,
        {
            let ghost d0 = delivered.deep_view();
            let mut hit = false;
            if self.entries[j].transaction_id == *tx {
                if contains(targets, &self.entries[j].connection_id) {
                    hit = true;
                    let cid_copy = self.entries[j].connection_id.clone();
                    delivered.push(cid_copy);
                    let ghost q0 = self.entries@[j as int].queue.deep_view();
                    let m = msg.clone();
                    self.entries[j].queue.push(m);
                    proof {
                        assert(self.entries@[j as int].queue.deep_view() =~= q0.push(msg@));
                        assert(delivered.deep_view() =~= d0.push(s0[j as int].connection_id@));
                    }
                }
            }
            proof {
                let dv = delivered.deep_view();
                assert forall|c: Seq<char>| contains_id(dv, c) == (exists|k: int|
                    0 <= k < j + 1 && s0[k].transaction_id@ == tx@ && s0[k].connection_id@ == c
                    && contains_id(targets.deep_view(), c)) by {
                    if contains_id(dv, c) {
                        let i = choose|i: int| 0 <= i < dv.len() && dv[i] == c;
                        if i < d0.len() {
                            assert(contains_id(d0, c));
                        } else {
                            assert(hit);
                            assert(c == s0[j as int].connection_id@);
                        }
                    }
                    if exists|k: int| 0 <= k < j + 1 && s0[k].transaction_id@ == tx@
                        && s0[k].connection_id@ == c && contains_id(targets.deep_view(), c) {
                        let k = choose|k: int| 0 <= k < j + 1 && s0[k].transaction_id@ == tx@
                            && s0[k].connection_id@ == c && contains_id(targets.deep_view(), c);
                        if k < j {
                            assert(contains_id(d0, c));
                            let i = choose|i: int| 0 <= i < d0.len() && d0[i] == c;
                            assert(dv[i] == c);
                        } else {
                            assert(hit);
                            assert(dv[dv.len() - 1] == c);
                        }
                    }
                }
            }
            j = j + 1;
        }
        proof {
            lemma_send_to_shape(s0, self.entries@, *old(self), *self, tx@, msg@,
                targets.deep_view());
            assert forall|c: Seq<char>| contains_id(delivered.deep_view(), c) == (reg_has(
                *old(self),
                tx@,
                c,
            ) && contains_id(targets.deep_view(), c)) by {
                lemma_find_entry_props(s0, tx@, c);
                if contains_id(delivered.deep_view(), c) {
                    let k = choose|k: int| 0 <= k < n && s0[k].transaction_id@ == tx@
                        && s0[k].connection_id@ == c && contains_id(targets.deep_view(), c);
                    if find_entry(s0, tx@, c) == -1 {
                        assert(!entry_matches(s0[k], tx@, c));
                        assert(false);
                    }
                }
                if reg_has(*old(self), tx@, c) && contains_id(targets.deep_view(), c) {
                    let f = find_entry(s0, tx@, c);
                    assert(s0[f].transaction_id@ == tx@ && s0[f].connection_id@ == c);
                }
            }
        }
        delivered
    }

    /// Drops every registration of connection `cid`, under any transaction
    /// id; all other registrations and their queues are untouched.
    pub fn remove_connection(&mut self, cid: &String)
        ensures
            remove_post(*old(self), *final(self), cid@),
    {
        let ghost s0 = self.entries@;
        let mut src: Vec<RegistryEntry> = Vec::new();
        core::mem::swap(&mut self.entries, &mut src);
        let mut kept: Vec<RegistryEntry> = Vec::new();
        while src.len() > 0
            invariant
                drop_cid(s0, cid@) =~= kept@ + drop_cid(src@, cid@),
            decreases src@.len(),
        {
            let ghost sv = src@;
            let e = src.remove(0);
            proof {
                assert(sv[0] == e);
                assert(sv.drop_first() =~= src@);
            }
            if e.connection_id == *cid {
                proof {
                    assert(drop_cid(sv, cid@) == drop_cid(src@, cid@));
                }
            } else {
                proof {
                    assert(drop_cid(sv, cid@) == seq![e] + drop_cid(src@, cid@));
                }
                kept.push(e);
                proof {
                    assert(drop_cid(s0, cid@) =~= kept@ + drop_cid(src@, cid@));
                }
            }
        }
        proof {
            assert(src@ =~= Seq::<RegistryEntry>::empty());
            assert(drop_cid(s0, cid@) =~= kept@);
        }
        self.entries = kept;
        proof {
            lemma_drop_cid_find(s0, cid@, *old(self), *self);
        }
    }
}

/// Exec membership test against a list of identifiers.
fn contains(ids: &Vec<String>, c: &String) -> (res: bool)
    ensures
        res == contains_id(ids.deep_view(), c@),
{
    let n = ids.len();
    let mut j: usize = 0;
    while j < n
        invariant
            n == ids@.len(),
            j <= n,
            forall|k: int| 0 <= k < j ==> ids.deep_view()[k] != c@,
        decreases n - j,
    {
        if ids[j] == *c {
            proof {
                assert(ids.deep_view()[j as int] == c@);
            }
            return true;
        }
        j = j + 1;
    }
    false
}

/// The entry sequence with every entry of connection `cid` removed, order
/// otherwise kept.
pub open spec fn drop_cid(s: Seq<RegistryEntry>, cid: Seq<char>) -> Seq<RegistryEntry>
    decreases s.len(),
{
    if s.len() == 0 {
        Seq::empty()
    } else if s[0].connection_id@ == cid {
        drop_cid(s.drop_first(), cid)
    } else {
        seq![s[0]] + drop_cid(s.drop_first(), cid)
    }
}

proof fn lemma_drop_cid_keeps(s: Seq<RegistryEntry>, cid: Seq<char>)
    ensures
        forall|i: int| 0 <= i < drop_cid(s, cid).len() ==> drop_cid(s, cid)[i].connection_id@
            != cid,
    decreases s.len(),
{
    if s.len() == 0 {
    } else {
        lemma_drop_cid_keeps(s.drop_first(), cid);
        let rest = drop_cid(s.drop_first(), cid);
        if s[0].connection_id@ == cid {
        } else {
            let d = seq![s[0]] + rest;
            assert forall|i: int| 0 <= i < d.len() implies d[i].connection_id@ != cid by {
                if i == 0 {
                    assert(d[0] == s[0]);
                } else {
                    assert(d[i] == rest[i - 1]);
                }
            }
        }
    }
}

/// Searching after removal of one connection's entries: the removed
/// connection is gone, every other pair keeps its entry (and so its queue).
proof fn lemma_drop_cid_search(s: Seq<RegistryEntry>, cid: Seq<char>, t: Seq<char>, c: Seq<char>)
    requires
        c != cid,
    ensures
        find_entry(drop_cid(s, cid), t, c) >= 0 <==> find_entry(s, t, c) >= 0,
        find_entry(s, t, c) >= 0 ==> drop_cid(s, cid)[find_entry(drop_cid(s, cid), t, c)] == s[
            find_entry(s, t, c)],
    decreases s.len(),
{
    if s.len() == 0 {
    } else {
        let sp = s.drop_first();
        let rest = drop_cid(sp, cid);
        lemma_drop_cid_search(sp, cid, t, c);
        lemma_find_entry_props(rest, t, c);
        lemma_find_entry_props(sp, t, c);
        if s[0].connection_id@ == cid {
            assert(!entry_matches(s[0], t, c));
            assert(drop_cid(s, cid) == rest);
            assert(find_entry(s, t, c) == if find_entry(sp, t, c) == -1 {
                -1int
            } else {
                find_entry(sp, t, c) + 1
            });
            if find_entry(s, t, c) >= 0 {
                assert(s[find_entry(s, t, c)] == sp[find_entry(sp, t, c)]);
            }
        } else {
            let d = seq![s[0]] + rest;
            assert(drop_cid(s, cid) == d);
            assert(d[0] == s[0]);
            assert(d.drop_first() =~= rest);
            assert(d.drop_first() == rest);
            if entry_matches(s[0], t, c) {
                assert(find_entry(s, t, c) == 0);
                assert(find_entry(d, t, c) == 0);
            } else {
                assert(find_entry(d, t, c) == if find_entry(rest, t, c) == -1 {
                    -1int
                } else {
                    find_entry(rest, t, c) + 1
                });
                assert(find_entry(s, t, c) == if find_entry(sp, t, c) == -1 {
                    -1int
                } else {
                    find_entry(sp, t, c) + 1
                });
                if find_entry(s, t, c) >= 0 {
                    assert(s[find_entry(s, t, c)] == sp[find_entry(sp, t, c)]);
                    assert(d[find_entry(d, t, c)] == rest[find_entry(rest, t, c)]);
                }
            }
        }
    }
}

proof fn lemma_drop_cid_find(s0: Seq<RegistryEntry>, cid: Seq<char>, r0: Registry, r1: Registry)
    requires
        r0.entries@ == s0,
        r1.entries@ == drop_cid(s0, cid),
    ensures
        forall|t: Seq<char>| !reg_has(r1, t, cid),
        forall|t: Seq<char>, c: Seq<char>| c != cid ==> reg_has(r1, t, c) == reg_has(r0, t, c),
        forall|t: Seq<char>, c: Seq<char>| c != cid ==> reg_queue(r1, t, c) == reg_queue(r0, t, c),
{
    let s1 = drop_cid(s0, cid);
    lemma_drop_cid_keeps(s0, cid);
    assert forall|t: Seq<char>| !reg_has(r1, t, cid) by {
        lemma_find_entry_props(s1, t, cid);
        if find_entry(s1, t, cid) >= 0 {
            assert(s1[find_entry(s1, t, cid)].connection_id@ == cid);
            assert(false);
        }
    }
    assert forall|t: Seq<char>, c: Seq<char>| c != cid implies reg_has(r1, t, c) == reg_has(
        r0,
        t,
        c,
    ) && reg_queue(r1, t, c) == reg_queue(r0, t, c) by {
        lemma_drop_cid_search(s0, cid, t, c);
    }
}

/// From the per-index shape that the send-to loop establishes, derive the
/// observer-level post-condition.
proof fn lemma_send_to_shape(
    s0: Seq<RegistryEntry>,
    s1: Seq<RegistryEntry>,
    r0: Registry,
    r1: Registry,
    tx: Seq<char>,
    m: Seq<char>,
    targets: Seq<Seq<char>>,
)
    requires
        r0.entries@ == s0,
        r1.entries@ == s1,
        s0.len() == s1.len(),
        forall|k: int| 0 <= k < s0.len() ==> s1[k].transaction_id@ == s0[k].transaction_id@
            && s1[k].connection_id@ == s0[k].connection_id@,
        forall|k: int| 0 <= k < s0.len() && s0[k].transaction_id@ == tx && contains_id(
            targets,
            s0[k].connection_id@,
        ) ==> s1[k].queue.deep_view() == s0[k].queue.deep_view().push(m),
        forall|k: int| 0 <= k < s0.len() && !(s0[k].transaction_id@ == tx && contains_id(
            targets,
            s0[k].connection_id@,
        )) ==> s1[k] == s0[k],
    ensures
        send_to_post(r0, r1, tx, m, targets),
{
    assert forall|t: Seq<char>, c: Seq<char>| reg_has(r1, t, c) == reg_has(r0, t, c) by {
        lemma_find_entry_same_keys(s0, s1, t, c);
    }
    assert forall|t: Seq<char>, c: Seq<char>| t != tx implies reg_queue(r1, t, c) == reg_queue(
        r0,
        t,
        c,
    ) by {
        lemma_find_entry_same_keys(s0, s1, t, c);
        lemma_find_entry_props(s0, t, c);
        let f = find_entry(s0, t, c);
        if f >= 0 {
            assert(s0[f].transaction_id@ == t);
            assert(s1[f] == s0[f]);
        }
    }
    assert forall|c: Seq<char>| reg_has(r0, tx, c) && contains_id(targets, c) implies reg_queue(
        r1,
        tx,
        c,
    ) == reg_queue(r0, tx, c).push(m) by {
        lemma_find_entry_same_keys(s0, s1, tx, c);
        lemma_find_entry_props(s0, tx, c);
        let f = find_entry(s0, tx, c);
        assert(s0[f].transaction_id@ == tx && s0[f].connection_id@ == c);
    }
    assert forall|c: Seq<char>| !(reg_has(r0, tx, c) && contains_id(targets, c)) implies reg_queue(
        r1,
        tx,
        c,
    ) == reg_queue(r0, tx, c) by {
        lemma_find_entry_same_keys(s0, s1, tx, c);
        lemma_find_entry_props(s0, tx, c);
        let f = find_entry(s0, tx, c);
        if f >= 0 {
            assert(s0[f].transaction_id@ == tx && s0[f].connection_id@ == c);
        }
    }
}

/// From the per-index shape that the broadcast loop establishes, derive the
/// observer-level post-condition.
proof fn lemma_broadcast_shape(
    s0: Seq<RegistryEntry>,
    s1: Seq<RegistryEntry>,
    r0: Registry,
    r1: Registry,
    tx: Seq<char>,
    m: Seq<char>,
)
    requires
        r0.entries@ == s0,
        r1.entries@ == s1,
        s0.len() == s1.len(),
        forall|k: int| 0 <= k < s0.len() ==> s1[k].transaction_id@ == s0[k].transaction_id@
            && s1[k].connection_id@ == s0[k].connection_id@,
        forall|k: int| 0 <= k < s0.len() && s0[k].transaction_id@ == tx
            ==> s1[k].queue.deep_view() == s0[k].queue.deep_view().push(m),
        forall|k: int| 0 <= k < s0.len() && s0[k].transaction_id@ != tx ==> s1[k] == s0[k],
    ensures
        broadcast_post(r0, r1, tx, m),
{
    assert forall|t: Seq<char>, c: Seq<char>| reg_has(r1, t, c) == reg_has(r0, t, c) by {
        lemma_find_entry_same_keys(s0, s1, t, c);
    }
    assert forall|t: Seq<char>, c: Seq<char>| t != tx implies reg_queue(r1, t, c) == reg_queue(
        r0,
        t,
        c,
    ) by {
        lemma_find_entry_same_keys(s0, s1, t, c);
        lemma_find_entry_props(s0, t, c);
        let f = find_entry(s0, t, c);
        if f >= 0 {
            assert(s0[f].transaction_id@ == t);
            assert(s1[f] == s0[f]);
        }
    }
    assert forall|c: Seq<char>| reg_has(r0, tx, c) implies reg_queue(r1, tx, c) == reg_queue(
        r0,
        tx,
        c,
    ).push(m) by {
        lemma_find_entry_same_keys(s0, s1, tx, c);
        lemma_find_entry_props(s0, tx, c);
        let f = find_entry(s0, tx, c);
        assert(s0[f].transaction_id@ == tx);
    }
    assert forall|c: Seq<char>| !reg_has(r0, tx, c) implies reg_queue(r1, tx, c) == reg_queue(
        r0,
        tx,
        c,
    ) by {
        lemma_find_entry_same_keys(s0, s1, tx, c);
    }
}

} // verus!
