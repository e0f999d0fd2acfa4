//! The broadcaster: registry of live subscriptions, liveness-sweep
//! decision, and broadcast fan-out planning.
//!
//! The registry maps a map identifier to the ordered set of client handles
//! currently watching that map.  It is the single shared mutable resource
//! of the subsystem; the surrounding runtime wraps one [`Broadcaster`]
//! value in a mutual-exclusion lock and calls each operation inside one
//! critical section.  The operations themselves are pure state
//! transitions: the runtime performs the channel sends and hands their
//! outcomes back in as plain values.

use vstd::prelude::*;

use crate::actions::Action;
use crate::wire::BroadcastError;
use crate::wire::action_serializable;
use crate::wire::action_wire;
use crate::wire::serialize_action;

verus! {

/// The failure of a subscription: the initial acknowledgement could not be
/// pushed because the consumer vanished before the subscription completed.
#[derive(Debug, Clone, Copy, PartialEq, Eq, Structural)]
pub enum SubscribeError {
    SubscriptionRejected,
}

/// Client listening to updates on a map.
///
/// The identifier names one owned sending endpoint; the runtime keeps the
/// endpoint itself and allocates a fresh identifier for every accepted
/// subscription, so a handle belongs to exactly one map's subscriber set
/// for its whole lifetime.
#[derive(Debug, Clone, Copy, PartialEq, Eq, Structural)]
pub struct ConnectedClient {
    /// Fresh identifier of the client's sending endpoint.
    pub id: u64,
}

/// Map that clients are connected to: one registry entry.
struct ConnectedMap {
    map_id: i32,
    clients: Vec<ConnectedClient>,
}

/// The identifiers of a sequence of clients, in registration order.
pub open spec fn ids_of(cs: Seq<ConnectedClient>) -> Seq<u64> {
    cs.map_values(|c: ConnectedClient| c.id)
}

/// The subscribers of `m` that the probe found alive, in their original
/// order.
pub open spec fn keep_alive(ids: Seq<u64>, alive: Seq<u64>) -> Seq<u64> {
    ids.filter(|c: u64| alive.contains(c))
}

spec fn seq_has(s: Seq<ConnectedMap>, m: i32) -> bool {
    exists|i: int| 0 <= i < s.len() && s[i].map_id == m
}

spec fn seq_index_of(s: Seq<ConnectedMap>, m: i32) -> int {
    choose|i: int| 0 <= i < s.len() && s[i].map_id == m
}

spec fn seq_subs(s: Seq<ConnectedMap>, m: i32) -> Seq<u64> {
    if seq_has(s, m) {
        ids_of(s[seq_index_of(s, m)].clients@)
    } else {
        Seq::empty()
    }
}

spec fn seq_has_client(s: Seq<ConnectedMap>, c: u64) -> bool {
    exists|i: int| 0 <= i < s.len() && ids_of(s[i].clients@).contains(c)
}

spec fn distinct_map_ids(s: Seq<ConnectedMap>) -> bool {
    forall|i: int, j: int|
        0 <= i < s.len() && 0 <= j < s.len() && i != j ==> s[i].map_id != s[j].map_id
}

spec fn entries_wf(s: Seq<ConnectedMap>) -> bool {
    &&& distinct_map_ids(s)
    &&& forall|i: int| 0 <= i < s.len() ==> s[i].clients@.len() > 0
    &&& forall|i: int| 0 <= i < s.len() ==> ids_of(s[i].clients@).no_duplicates()
    &&& forall|i: int, j: int, c: u64|
        #![trigger ids_of(s[i].clients@).contains(c), ids_of(s[j].clients@).contains(c)]
        0 <= i < s.len() && 0 <= j < s.len() && i != j && ids_of(s[i].clients@).contains(c)
            ==> !ids_of(s[j].clients@).contains(c)
}

proof fn lemma_unique_index(s: Seq<ConnectedMap>, i: int, m: i32)
    requires
        distinct_map_ids(s),
        0 <= i < s.len(),
        s[i].map_id == m,
    ensures
        seq_has(s, m),
        seq_index_of(s, m) == i,
{
    assert(seq_has(s, m));
    let j = seq_index_of(s, m);
    assert(0 <= j < s.len() && s[j].map_id == m);
    if j != i {
        assert(s[i].map_id != s[j].map_id);
    }
}

/// The registry of live subscriptions: from map identifier to the ordered
/// sequence of client handles watching that map.  An entry is present
/// exactly while its map has at least one handle.
pub struct Broadcaster {
    maps: Vec<ConnectedMap>,
}

impl Broadcaster {
    /// The registry is well formed: one entry per map identifier, no empty
    /// entry, and every client handle is reachable from exactly one map's
    /// subscriber set.
    pub closed spec fn wf(&self) -> bool {
        entries_wf(self.maps@)
    }

    /// Whether the registry holds an entry for map `m`.
    pub closed spec fn contains_map(&self, m: i32) -> bool {
        seq_has(self.maps@, m)
    }

    /// The handles subscribed to map `m`, in registration order; empty when
    /// the registry holds no entry for `m`.
    pub closed spec fn subscribers(&self, m: i32) -> Seq<u64> {
        seq_subs(self.maps@, m)
    }

    /// Whether some map's subscriber set holds the handle `c`.
    pub closed spec fn contains_client(&self, c: u64) -> bool {
        seq_has_client(self.maps@, c)
    }

    /// A well-formed registry holds a handle if and only if some map's
    /// subscriber sequence holds it.
    pub proof fn lemma_client_in_some_map(&self, c: u64)
        requires
            self.wf(),
        ensures
            self.contains_client(c) <==> exists|m: i32| self.subscribers(m).contains(c),
    {
        let s = self.maps@;
        if seq_has_client(s, c) {
            let i = choose|i: int| 0 <= i < s.len() && ids_of(s[i].clients@).contains(c);
            let m = s[i].map_id;
            lemma_unique_index(s, i, m);
            assert(self.subscribers(m).contains(c));
        }
        if exists|m: i32| self.subscribers(m).contains(c) {
            let m = choose|m: i32| self.subscribers(m).contains(c);
            assert(seq_has(s, m));
            let i = seq_index_of(s, m);
            assert(ids_of(s[i].clients@).contains(c));
        }
    }

    /// Constructs a broadcaster with an empty registry.  The recurring
    /// liveness sweep is driven from outside: the runtime spawns a timer
    /// task that calls [`Broadcaster::remove_stale_clients`] once per tick
    /// for the lifetime of the process.
    pub fn new() -> (b: Broadcaster)
        ensures
            b.wf(),
            forall|m: i32| !b.contains_map(m),
            forall|m: i32| b.subscribers(m) == Seq::<u64>::empty(),
            forall|c: u64| !b.contains_client(c),
    {
        Broadcaster { maps: Vec::new() }
    }

    /// Whether the handle `c` is currently registered, under any map.
    pub fn has_client(&self, c: u64) -> (r: bool)
        ensures
            r == self.contains_client(c),
    {
        let n = self.maps.len();
        let mut i: usize = 0;
        while i < n
            invariant
                i <= n,
                n == self.maps@.len(),
                forall|k: int| 0 <= k < i ==> !(#[trigger] ids_of(self.maps@[k].clients@)).contains(
                    c,
                ),
            decreases n - i,
        {
            let entry = &self.maps[i];
            let cn = entry.clients.len();
            let mut j: usize = 0;
            while j < cn
                invariant
                    j <= cn,
                    0 <= i < self.maps@.len(),
                    *entry == self.maps@[i as int],
                    cn == entry.clients@.len(),
                    forall|l: int| 0 <= l < j ==> entry.clients@[l].id != c,
                decreases cn - j,
            {
                if entry.clients[j].id == c {
                    proof {
                        assert(ids_of(self.maps@[i as int].clients@)[j as int] == c);
                        assert(ids_of(self.maps@[i as int].clients@).contains(c));
                    }
                    return true;
                }
                j += 1;
            }
            proof {
                assert forall|x: int| 0 <= x < entry.clients@.len() implies ids_of(
                    entry.clients@,
                )[x] != c by {
                    assert(entry.clients@[x].id != c);
                }
            }
            i += 1;
        }
        false
    }

    fn find_map_index(&self, m: i32) -> (r: Option<usize>)
        ensures
            r is Some ==> 0 <= r->0 < self.maps@.len() && self.maps@[r->0 as int].map_id == m,
            r is None ==> !self.contains_map(m),
    {
        let n = self.maps.len();
        let mut i: usize = 0;
        while i < n
            invariant
                i <= n,
                n == self.maps@.len(),
                forall|k: int| 0 <= k < i ==> self.maps@[k].map_id != m,
            decreases n - i,
        {
            if self.maps[i].map_id == m {
                return Some(i);
            }
            i += 1;
        }
        None
    }

    /// Registers a fresh client handle with the broadcaster.
    ///
    /// The runtime first allocates the event channel and pushes the
    /// acknowledgement frame; `ack_ok` reports whether that push succeeded.
    /// On success the handle joins the end of `map_id`'s subscriber
    /// sequence, the entry being created if absent; every other map is
    /// untouched.  On failure the subscription is rejected and no
    /// registration is made.
    pub fn new_client(&mut self, map_id: i32, client: ConnectedClient, ack_ok: bool) -> (r: Result<
        (),
        SubscribeError,
    >)
        requires
            old(self).wf(),
            !old(self).contains_client(client.id),
        ensures
            final(self).wf(),
            r is Ok <==> ack_ok,
            !ack_ok ==> r == Err::<(), SubscribeError>(SubscribeError::SubscriptionRejected),
            !ack_ok ==> *final(self) == *old(self),
            ack_ok ==> final(self).subscribers(map_id) == old(self).subscribers(map_id).push(
                client.id,
            ),
            ack_ok ==> final(self).contains_map(map_id),
            ack_ok ==> forall|m: i32|
                m != map_id ==> final(self).subscribers(m) == old(self).subscribers(m),
            ack_ok ==> forall|m: i32|
                m != map_id ==> (final(self).contains_map(m) <==> old(self).contains_map(m)),
            ack_ok ==> forall|c: u64|
                final(self).contains_client(c) <==> (old(self).contains_client(c) || c
                    == client.id),
    {
        if !ack_ok {
            return Err(SubscribeError::SubscriptionRejected);
        }
        let ghost s0 = self.maps@;
        match self.find_map_index(map_id) {
            Some(i) => {
                let mut entry = self.maps.remove(i);
                entry.clients.push(client);
                self.maps.insert(i, entry);
                proof {
                    let s1 = self.maps@;
                    assert(s1[i as int].clients@ =~= s0[i as int].clients@.push(client));
                    assert forall|k: int| 0 <= k < s1.len() && k != i implies s1[k] == s0[k] by {}
                    lemma_register_at(s0, s1, i as int, map_id, client);
                }
                Ok(())
            },
            None => {
                let mut clients: Vec<ConnectedClient> = Vec::new();
                clients.push(client);
                self.maps.push(ConnectedMap { map_id, clients });
                proof {
                    let s1 = self.maps@;
                    let n = s0.len() as int;
                    assert(s1[n].clients@ =~= seq![client]);
                    assert(ids_of(s1[n].clients@) =~= seq![client.id]);
                    lemma_register_new(s0, s1, map_id, client);
                }
                Ok(())
            },
        }
    }

    /// Plans one broadcast of `msg` to every current subscriber of
    /// `map_id`.
    ///
    /// The action is encoded to its wire frame exactly once; if encoding
    /// fails the call reports the serialization failure and plans no
    /// sends.  Otherwise the returned frame is to be pushed to exactly the
    /// returned handles — the subscribers of `map_id` at this instant, in
    /// registration order.  A map with no subscribers yields an empty
    /// recipient list: broadcasting to it is a no-op, not an error.
    /// Per-handle send failures are the runtime's to swallow; eviction is
    /// left to the sweep.
    pub fn broadcast(&self, map_id: i32, msg: &Action) -> (r: Result<
        (String, Vec<u64>),
        BroadcastError,
    >)
        requires
            self.wf(),
        ensures
            r is Ok <==> action_serializable(*msg),
            r is Err ==> r == Err::<(String, Vec<u64>), BroadcastError>(
                BroadcastError::SerializationFailure,
            ),
            r is Ok ==> r->Ok_0.0@ == action_wire(*msg),
            r is Ok ==> r->Ok_0.1@ == self.subscribers(map_id),
    {
        let frame = match serialize_action(msg) {
            Ok(f) => f,
            Err(e) => {
                return Err(e);
            },
        };
        let mut recipients: Vec<u64> = Vec::new();
        match self.find_map_index(map_id) {
            Some(i) => {
                let entry = &self.maps[i];
                let cn = entry.clients.len();
                let mut j: usize = 0;
                while j < cn
                    invariant
                        j <= cn,
                        0 <= i < self.maps@.len(),
                        *entry == self.maps@[i as int],
                        cn == entry.clients@.len(),
                        recipients@.len() == j,
                        forall|l: int| 0 <= l < j ==> recipients@[l] == entry.clients@[l].id,
                    decreases cn - j,
                {
                    recipients.push(entry.clients[j].id);
                    j += 1;
                }
                proof {
                    assert(recipients@ =~= ids_of(entry.clients@));
                    lemma_unique_index(self.maps@, i as int, map_id);
                }
                Ok((frame, recipients))
            },
            None => {
                proof {
                    assert(self.subscribers(map_id) =~= Seq::<u64>::empty());
                }
                Ok((frame, recipients))
            },
        }
    }

    /// Removes all non-responsive clients from the broadcast list.
    ///
    /// The runtime probes every registered handle once per tick (with the
    /// same bounded fan-out as a broadcast) and hands in `alive`, the
    /// identifiers whose probe succeeded.  The registry is rebuilt in one
    /// pass: each map keeps exactly its surviving subscribers in their
    /// original order, and a map whose every subscriber failed loses its
    /// entry entirely.  A failed probe is not retried; this sweep is the
    /// sole mechanism that reclaims dead connections.
    pub fn remove_stale_clients(&mut self, alive: &Vec<u64>)
        requires
            old(self).wf(),
        ensures
            final(self).wf(),
            forall|m: i32|
                final(self).subscribers(m) == keep_alive(old(self).subscribers(m), alive@),
            forall|m: i32|
                final(self).contains_map(m) <==> keep_alive(old(self).subscribers(m), alive@).len()
                    > 0,
            forall|c: u64|
                final(self).contains_client(c) <==> (old(self).contains_client(c)
                    && alive@.contains(c)),
    {
        let ghost s0 = self.maps@;
        let ghost av = alive@;
        let mut ok_maps: Vec<ConnectedMap> = Vec::new();
        let n = self.maps.len();
        let mut i: usize = 0;
        while i < n
            invariant
                i <= n,
                n == self.maps@.len(),
                self.maps@ == s0,
                av == alive@,
                entries_wf(s0),
                entries_wf(ok_maps@),
                swept_from(ok_maps@, s0, i as int, av),
                forall|j: int| 0 <= j < i ==> sweep_entry_ok(s0, ok_maps@, j, av),
                forall|j: int| i <= j < s0.len() ==> !seq_has(ok_maps@, s0[j].map_id),
            decreases n - i,
        {
            let entry = &self.maps[i];
            let cn = entry.clients.len();
            let mut ok_clients: Vec<ConnectedClient> = Vec::new();
            let mut j: usize = 0;
            while j < cn
                invariant
                    j <= cn,
                    0 <= i < self.maps@.len(),
                    *entry == self.maps@[i as int],
                    av == alive@,
                    cn == entry.clients@.len(),
                    ok_clients@ == clients_alive(entry.clients@.take(j as int), av),
                decreases cn - j,
            {
                let c = entry.clients[j];
                proof {
                    let taken = entry.clients@.take(j as int);
                    assert(entry.clients@.take(j as int + 1) =~= taken.push(
                        entry.clients@[j as int],
                    ));
                    taken.lemma_filter_push(
                        entry.clients@[j as int],
                        |c: ConnectedClient| av.contains(c.id),
                    );
                }
                if contains_id(alive, c.id) {
                    ok_clients.push(c);
                }
                j += 1;
            }
            proof {
                assert(entry.clients@.take(cn as int) =~= entry.clients@);
                lemma_clients_alive_ids(entry.clients@, av);
                assert(ids_of(ok_clients@) == keep_alive(ids_of(entry.clients@), av));
            }
            let ghost ok_pre = ok_maps@;
            let ghost survivors = keep_alive(ids_of(s0[i as int].clients@), av);
            if ok_clients.len() > 0 {
                let map_id = entry.map_id;
                ok_maps.push(ConnectedMap { map_id, clients: ok_clients });
                proof {
                    let e = ok_maps@[ok_pre.len() as int];
                    assert(ok_maps@ =~= ok_pre.push(e));
                    assert(swept_entry(e, s0[i as int], av));
                    assert(survivors.len() > 0) by {
                        assert(ids_of(e.clients@).len() > 0);
                    }

                    // the new entry's map is fresh among the survivors
                    assert forall|k: int| 0 <= k < ok_pre.len() implies ok_pre[k].map_id
                        != e.map_id by {
                        assert(from_source(ok_pre[k], s0, i as int, av));
                        let j = choose|j: int| 0 <= j < i && swept_entry(ok_pre[k], s0[j], av);
                        assert(s0[j].map_id != s0[i as int].map_id);
                    }
                    assert(distinct_map_ids(ok_maps@)) by {
                        assert forall|a: int, b: int|
                            0 <= a < ok_maps@.len() && 0 <= b < ok_maps@.len() && a != b implies
                            ok_maps@[a].map_id != ok_maps@[b].map_id by {
                            if a < ok_pre.len() && b < ok_pre.len() {
                                assert(ok_pre[a].map_id != ok_pre[b].map_id);
                            }
                        }
                    }

                    // well-formedness of the grown survivor list
                    assert(ids_of(e.clients@).no_duplicates()) by {
                        lemma_keep_alive_no_dup(ids_of(s0[i as int].clients@), av);
                    }
                    assert forall|a: int, b: int, c: u64|
                        #![trigger ids_of(ok_maps@[a].clients@).contains(c), ids_of(ok_maps@[b].clients@).contains(c)]
                        0 <= a < ok_maps@.len() && 0 <= b < ok_maps@.len() && a != b && ids_of(
                            ok_maps@[a].clients@,
                        ).contains(c) implies !ids_of(ok_maps@[b].clients@).contains(c) by {
                        lemma_sweep_disjoint(s0, ok_pre, e, i as int, av, a, b, c);
                    }
                    assert(entries_wf(ok_maps@));

                    // accounting: the new map is present with its survivors,
                    // every earlier map is untouched by the push
                    lemma_push_entry_preserves_all(s0, ok_pre, e, i as int, av);
                    assert(sweep_entry_ok(s0, ok_maps@, i as int, av));

                    assert forall|k: int| 0 <= k < ok_maps@.len() implies from_source(
                        ok_maps@[k],
                        s0,
                        i as int + 1,
                        av,
                    ) by {
                        if k < ok_pre.len() {
                            assert(from_source(ok_pre[k], s0, i as int, av));
                            let j = choose|j: int| 0 <= j < i && swept_entry(ok_pre[k], s0[j], av);
                            assert(0 <= j < i as int + 1 && swept_entry(ok_maps@[k], s0[j], av));
                        } else {
                            assert(swept_entry(ok_maps@[k], s0[i as int], av));
                        }
                    }
                    assert(swept_from(ok_maps@, s0, i as int + 1, av));
                }
            } else {
                proof {
                    assert(survivors.len() == 0) by {
                        assert(ids_of(ok_clients@) =~= Seq::<u64>::empty());
                    }
                    assert(sweep_entry_ok(s0, ok_maps@, i as int, av));
                    lemma_swept_from_widen(ok_maps@, s0, i as int, i as int + 1, av);
                }
            }
            i += 1;
        }
        self.maps = ok_maps;
        proof {
            lemma_sweep_post(s0, self.maps@, av);
        }
    }

    /// A full snapshot of the registry for the sweep: every registered
    /// handle identifier, each exactly once.
    pub fn snapshot_all(&self) -> (r: Vec<u64>)
        requires
            self.wf(),
        ensures
            forall|c: u64| r@.contains(c) <==> self.contains_client(c),
            r@.no_duplicates(),
    {
        let s = Ghost(self.maps@);
        let mut r: Vec<u64> = Vec::new();
        let n = self.maps.len();
        let mut i: usize = 0;
        while i < n
            invariant
                i <= n,
                n == self.maps@.len(),
                self.maps@ == s@,
                entries_wf(s@),
                forall|c: u64| r@.contains(c) <==> client_in_prefix(s@, i as int, c),
                r@.no_duplicates(),
            decreases n - i,
        {
            let entry = &self.maps[i];
            let cn = entry.clients.len();
            let mut j: usize = 0;
            while j < cn
                invariant
                    j <= cn,
                    0 <= i < s@.len(),
                    self.maps@ == s@,
                    *entry == s@[i as int],
                    entries_wf(s@),
                    cn == entry.clients@.len(),
                    forall|c: u64|
                        r@.contains(c) <==> (client_in_prefix(s@, i as int, c) || ids_of(
                            entry.clients@.take(j as int),
                        ).contains(c)),
                    r@.no_duplicates(),
                decreases cn - j,
            {
                let c0 = entry.clients[j].id;
                proof {
                    let taken = entry.clients@.take(j as int);
                    assert(entry.clients@.take(j as int + 1) =~= taken.push(
                        entry.clients@[j as int],
                    ));
                    lemma_push_id(taken, entry.clients@[j as int]);
                    assert(ids_of(entry.clients@.take(j as int + 1)) =~= ids_of(taken).push(c0));
                    // the pushed identifier is fresh in the snapshot so far
                    assert(!r@.contains(c0)) by {
                        if client_in_prefix(s@, i as int, c0) {
                            let k = choose|k: int|
                                0 <= k < i && ids_of(#[trigger] s@[k].clients@).contains(c0);
                            assert(ids_of(s@[i as int].clients@)[j as int] == c0);
                            assert(ids_of(s@[i as int].clients@).contains(c0));
                            assert(false);
                        }
                        if ids_of(taken).contains(c0) {
                            let l = choose|l: int| 0 <= l < taken.len() && ids_of(taken)[l] == c0;
                            assert(ids_of(s@[i as int].clients@)[l] == c0);
                            assert(ids_of(s@[i as int].clients@)[j as int] == c0);
                            assert(ids_of(s@[i as int].clients@).no_duplicates());
                            assert(false);
                        }
                    }
                    let r1 = r@.push(c0);
                    assert(r1.no_duplicates()) by {
                        assert forall|a: int, b: int|
                            0 <= a < r1.len() && 0 <= b < r1.len() && a != b implies r1[a]
                            != r1[b] by {
                            if a < r@.len() && b < r@.len() {
                            } else if b == r@.len() {
                                assert(r@.contains(r@[a]));
                            } else {
                                assert(r@.contains(r@[b]));
                            }
                        }
                    }
                }
                let ghost r_pre = r@;
                r.push(c0);
                proof {
                    let taken = entry.clients@.take(j as int);
                    let taken1 = entry.clients@.take(j as int + 1);
                    assert(ids_of(taken1) == ids_of(taken).push(c0));
                    assert(r@ == r_pre.push(c0));
                    assert forall|c: u64| r@.contains(c) <==> (client_in_prefix(s@, i as int, c)
                        || ids_of(taken1).contains(c)) by {
                        if r@.contains(c) {
                            let l = choose|l: int| 0 <= l < r@.len() && r@[l] == c;
                            if l < r_pre.len() {
                                assert(r_pre[l] == c);
                                assert(r_pre.contains(c));
                                if !client_in_prefix(s@, i as int, c) {
                                    assert(ids_of(taken).contains(c));
                                    let x = choose|x: int|
                                        0 <= x < ids_of(taken).len() && ids_of(taken)[x] == c;
                                    assert(ids_of(taken1)[x] == c);
                                    assert(ids_of(taken1).contains(c));
                                }
                            } else {
                                assert(c == c0);
                                assert(ids_of(taken1)[j as int] == c0);
                                assert(ids_of(taken1).contains(c));
                            }
                        }
                        if client_in_prefix(s@, i as int, c) || ids_of(taken1).contains(c) {
                            if client_in_prefix(s@, i as int, c) {
                                assert(r_pre.contains(c));
                                let l = choose|l: int| 0 <= l < r_pre.len() && r_pre[l] == c;
                                assert(r@[l] == c);
                            } else {
                                let l = choose|l: int|
                                    0 <= l < taken1.len() && ids_of(taken1)[l] == c;
                                if l < j as int {
                                    assert(ids_of(taken)[l] == c);
                                    assert(ids_of(taken).contains(c));
                                    assert(r_pre.contains(c));
                                    let x = choose|x: int| 0 <= x < r_pre.len() && r_pre[x] == c;
                                    assert(r@[x] == c);
                                } else {
                                    assert(c == c0);
                                    assert(r@[r_pre.len() as int] == c);
                                }
                            }
                            assert(r@.contains(c));
                        }
                    }
                }
                j += 1;
            }
            proof {
                assert(entry.clients@.take(cn as int) =~= entry.clients@);
                assert forall|c: u64| r@.contains(c) <==> client_in_prefix(
                    s@,
                    i as int + 1,
                    c,
                ) by {
                    if client_in_prefix(s@, i as int + 1, c) {
                        let k = choose|k: int|
                            0 <= k < i as int + 1 && ids_of(#[trigger] s@[k].clients@).contains(c);
                        if k < i as int {
                            assert(client_in_prefix(s@, i as int, c));
                        } else {
                            assert(ids_of(entry.clients@).contains(c));
                        }
                    }
                    if r@.contains(c) {
                        if client_in_prefix(s@, i as int, c) {
                            let k = choose|k: int|
                                0 <= k < i && ids_of(#[trigger] s@[k].clients@).contains(c);
                            assert(client_in_prefix(s@, i as int + 1, c));
                        } else {
                            assert(ids_of(s@[i as int].clients@).contains(c));
                            assert(client_in_prefix(s@, i as int + 1, c));
                        }
                    }
                }
            }
            i += 1;
        }
        proof {
            assert forall|c: u64| r@.contains(c) <==> seq_has_client(s@, c) by {
                if client_in_prefix(s@, n as int, c) {
                    let k = choose|k: int|
                        0 <= k < n && ids_of(#[trigger] s@[k].clients@).contains(c);
                    assert(seq_has_client(s@, c));
                }
                if seq_has_client(s@, c) {
                    let k = choose|k: int|
                        0 <= k < s@.len() && ids_of(s@[k].clients@).contains(c);
                    assert(ids_of(s@[k].clients@).contains(c));
                    assert(client_in_prefix(s@, n as int, c));
                }
            }
        }
        r
    }
}

/// A handle whose probe failed is absent from the registry immediately
/// after the sweep: it stands in no map's subscriber sequence, so no
/// subsequent broadcast plans a delivery to it.
pub proof fn lemma_swept_out(pre: Broadcaster, post: Broadcaster, alive: Seq<u64>, c: u64, m: i32)
    requires
        post.subscribers(m) == keep_alive(pre.subscribers(m), alive),
        !alive.contains(c),
    ensures
        !post.subscribers(m).contains(c),
{
    lemma_keep_alive_contains(pre.subscribers(m), alive, c);
}

/// The handle `c` stands in one of the first `i` registry entries.
spec fn client_in_prefix(s: Seq<ConnectedMap>, i: int, c: u64) -> bool {
    exists|k: int| 0 <= k < i && ids_of(#[trigger] s[k].clients@).contains(c)
}

/// The views of a sequence of batches.
pub open spec fn batch_views(bs: Seq<Vec<u64>>) -> Seq<Seq<u64>> {
    bs.map_values(|b: Vec<u64>| b@)
}

proof fn lemma_batch_views_push(bs: Seq<Vec<u64>>, b: Vec<u64>)
    ensures
        batch_views(bs.push(b)) == batch_views(bs).push(b@),
{
    assert(batch_views(bs.push(b)) =~= batch_views(bs).push(b@));
}

/// Splits the recipients of one fan-out into consecutive waves of at most
/// `width` sends, so that every recipient is served exactly once while no
/// more than `width` sends are ever in flight at once.
pub fn fanout_batches(clients: &Vec<u64>, width: usize) -> (batches: Vec<Vec<u64>>)
    requires
        width >= 1,
    ensures
        forall|k: int| 0 <= k < batches@.len() ==> (#[trigger] batches@[k])@.len() <= width,
        batch_views(batches@).flatten() == clients@,
{
    let n = clients.len();
    let mut batches: Vec<Vec<u64>> = Vec::new();
    let mut i: usize = 0;
    while i < n
        invariant
            i <= n,
            n == clients@.len(),
            width >= 1,
            forall|k: int| 0 <= k < batches@.len() ==> (#[trigger] batches@[k])@.len() <= width,
            batch_views(batches@).flatten() == clients@.take(i as int),
        decreases n - i,
    {
        let mut batch: Vec<u64> = Vec::new();
        let end = if n - i < width {
            n
        } else {
            i + width
        };
        let mut j = i;
        while j < end
            invariant
                i <= j <= end <= n,
                n == clients@.len(),
                batch@ == clients@.subrange(i as int, j as int),
            decreases end - j,
        {
            batch.push(clients[j]);
            proof {
                assert(batch@ =~= clients@.subrange(i as int, j as int + 1));
            }
            j += 1;
        }
        let ghost bs_pre = batches@;
        let ghost bv = batch@;
        proof {
            lemma_batch_views_push(bs_pre, batch);
        }
        batches.push(batch);
        proof {
            let mapped_pre = batch_views(bs_pre);
            assert(batch_views(batches@) == mapped_pre.push(bv));
            mapped_pre.lemma_flatten_push(bv);
            assert(clients@.take(i as int) + clients@.subrange(i as int, end as int) =~= clients@
                .take(end as int));
            assert(batch_views(batches@).flatten() == clients@.take(end as int));
        }
        i = end;
    }
    proof {
        assert(clients@.take(n as int) =~= clients@);
    }
    batches
}

/// Whether a vector of identifiers holds `x`.
fn contains_id(v: &Vec<u64>, x: u64) -> (r: bool)
    ensures
        r == v@.contains(x),
{
    let n = v.len();
    let mut i: usize = 0;
    while i < n
        invariant
            i <= n,
            n == v@.len(),
            forall|k: int| 0 <= k < i ==> v@[k] != x,
        decreases n - i,
    {
        if v[i] == x {
            return true;
        }
        i += 1;
    }
    false
}

/// The clients of one entry whose probe succeeded, in their original order.
pub open spec fn clients_alive(cs: Seq<ConnectedClient>, alive: Seq<u64>) -> Seq<ConnectedClient> {
    cs.filter(|c: ConnectedClient| alive.contains(c.id))
}

/// A surviving identifier is exactly one that was subscribed and probed
/// alive.
pub proof fn lemma_keep_alive_contains(ids: Seq<u64>, alive: Seq<u64>, c: u64)
    ensures
        keep_alive(ids, alive).contains(c) <==> (ids.contains(c) && alive.contains(c)),
{
    let pred = |x: u64| alive.contains(x);
    if keep_alive(ids, alive).contains(c) {
        ids.lemma_filter_contains_rev(pred, c);
        let i = choose|i: int|
            0 <= i < keep_alive(ids, alive).len() && keep_alive(ids, alive)[i] == c;
        ids.lemma_filter_pred(pred, i);
    }
    if ids.contains(c) && alive.contains(c) {
        let i = choose|i: int| 0 <= i < ids.len() && ids[i] == c;
        ids.lemma_filter_contains(pred, i);
    }
}

proof fn lemma_keep_alive_no_dup(ids: Seq<u64>, alive: Seq<u64>)
    requires
        ids.no_duplicates(),
    ensures
        keep_alive(ids, alive).no_duplicates(),
    decreases ids.len(),
{
    let pred = |x: u64| alive.contains(x);
    if ids.len() == 0 {
        ids.lemma_filter_len(pred);
        assert(keep_alive(ids, alive) =~= Seq::<u64>::empty());
    } else {
        let pre = ids.drop_last();
        let x = ids.last();
        assert(pre.no_duplicates());
        lemma_keep_alive_no_dup(pre, alive);
        assert(ids =~= pre.push(x));
        pre.lemma_filter_push(x, pred);
        if pred(x) {
            assert(!pre.contains(x)) by {
                if pre.contains(x) {
                    let k = choose|k: int| 0 <= k < pre.len() && pre[k] == x;
                    assert(ids[k] == ids[ids.len() - 1]);
                }
            }
            assert(!keep_alive(pre, alive).contains(x)) by {
                lemma_keep_alive_contains(pre, alive, x);
            }
            let out = keep_alive(pre, alive).push(x);
            assert(out.no_duplicates()) by {
                let base = keep_alive(pre, alive);
                assert forall|a: int, b: int|
                    0 <= a < out.len() && 0 <= b < out.len() && a != b implies out[a]
                    != out[b] by {
                    if a < base.len() && b < base.len() {
                    } else if b == base.len() {
                        assert(base.contains(base[a]));
                    } else {
                        assert(base.contains(base[b]));
                    }
                }
            }
        }
    }
}

proof fn lemma_clients_alive_ids(cs: Seq<ConnectedClient>, alive: Seq<u64>)
    ensures
        ids_of(clients_alive(cs, alive)) == keep_alive(ids_of(cs), alive),
    decreases cs.len(),
{
    let cpred = |c: ConnectedClient| alive.contains(c.id);
    let ipred = |x: u64| alive.contains(x);
    if cs.len() == 0 {
        cs.lemma_filter_len(cpred);
        ids_of(cs).lemma_filter_len(ipred);
        assert(clients_alive(cs, alive) =~= Seq::<ConnectedClient>::empty());
        assert(keep_alive(ids_of(cs), alive) =~= Seq::<u64>::empty());
        assert(ids_of(clients_alive(cs, alive)) =~= Seq::<u64>::empty());
    } else {
        let pre = cs.drop_last();
        let x = cs.last();
        lemma_clients_alive_ids(pre, alive);
        assert(cs =~= pre.push(x));
        pre.lemma_filter_push(x, cpred);
        lemma_push_id(pre, x);
        assert(ids_of(cs) =~= ids_of(pre).push(x.id));
        ids_of(pre).lemma_filter_push(x.id, ipred);
        if alive.contains(x.id) {
            lemma_push_id(clients_alive(pre, alive), x);
        }
    }
}

/// A sweep survivor entry: same map, exactly the surviving clients.
spec fn swept_entry(e: ConnectedMap, o: ConnectedMap, alive: Seq<u64>) -> bool {
    e.map_id == o.map_id && ids_of(e.clients@) == keep_alive(ids_of(o.clients@), alive)
}

/// Entry `e` is the sweep survivor of one of the first `i` source entries.
spec fn from_source(e: ConnectedMap, s0: Seq<ConnectedMap>, i: int, av: Seq<u64>) -> bool {
    exists|j: int| #![trigger s0[j]] 0 <= j < i && swept_entry(e, s0[j], av)
}

/// Every swept entry stems from one of the first `i` source entries.
spec fn swept_from(ok: Seq<ConnectedMap>, s0: Seq<ConnectedMap>, i: int, av: Seq<u64>) -> bool {
    forall|k: int| 0 <= k < ok.len() ==> from_source(#[trigger] ok[k], s0, i, av)
}

proof fn lemma_swept_from_widen(
    ok: Seq<ConnectedMap>,
    s0: Seq<ConnectedMap>,
    i: int,
    i2: int,
    av: Seq<u64>,
)
    requires
        swept_from(ok, s0, i, av),
        i <= i2,
    ensures
        swept_from(ok, s0, i2, av),
{
    assert forall|k: int| 0 <= k < ok.len() implies from_source(ok[k], s0, i2, av) by {
        assert(from_source(ok[k], s0, i, av));
        let j = choose|j: int| 0 <= j < i && swept_entry(ok[k], s0[j], av);
        assert(0 <= j < i2 && swept_entry(ok[k], s0[j], av));
    }
}

/// The swept registry accounts for source entry `j`: its map is present
/// with exactly the surviving subscribers, or absent because none
/// survived.
spec fn sweep_entry_ok(s0: Seq<ConnectedMap>, ok: Seq<ConnectedMap>, j: int, alive: Seq<u64>) -> bool {
    if keep_alive(ids_of(s0[j].clients@), alive).len() > 0 {
        seq_has(ok, s0[j].map_id) && seq_subs(ok, s0[j].map_id) == keep_alive(
            ids_of(s0[j].clients@),
            alive,
        )
    } else {
        !seq_has(ok, s0[j].map_id)
    }
}

proof fn lemma_push_entry_preserves(s: Seq<ConnectedMap>, e: ConnectedMap, m: i32)
    requires
        distinct_map_ids(s.push(e)),
        e.map_id != m,
    ensures
        seq_has(s.push(e), m) <==> seq_has(s, m),
        seq_subs(s.push(e), m) == seq_subs(s, m),
        seq_has(s.push(e), e.map_id),
        seq_subs(s.push(e), e.map_id) == ids_of(e.clients@),
{
    let s1 = s.push(e);
    let n = s.len() as int;
    lemma_unique_index(s1, n, e.map_id);
    assert(distinct_map_ids(s)) by {
        assert forall|i: int, j: int|
            0 <= i < s.len() && 0 <= j < s.len() && i != j implies s[i].map_id != s[j].map_id by {
            assert(s1[i].map_id != s1[j].map_id);
        }
    }
    if seq_has(s, m) {
        let k = seq_index_of(s, m);
        lemma_unique_index(s, k, m);
        lemma_unique_index(s1, k, m);
    } else if seq_has(s1, m) {
        let k = seq_index_of(s1, m);
        assert(0 <= k < s1.len() && s1[k].map_id == m);
        assert(k != n);
        assert(s[k].map_id == m);
    }
}

proof fn lemma_sweep_disjoint(
    s0: Seq<ConnectedMap>,
    ok_pre: Seq<ConnectedMap>,
    e: ConnectedMap,
    i: int,
    av: Seq<u64>,
    a: int,
    b: int,
    c: u64,
)
    requires
        entries_wf(s0),
        0 <= i < s0.len(),
        distinct_map_ids(ok_pre.push(e)),
        swept_from(ok_pre, s0, i, av),
        swept_entry(e, s0[i], av),
        0 <= a < ok_pre.len() + 1,
        0 <= b < ok_pre.len() + 1,
        a != b,
        ids_of(ok_pre.push(e)[a].clients@).contains(c),
    ensures
        !ids_of(ok_pre.push(e)[b].clients@).contains(c),
{
    let ok1 = ok_pre.push(e);
    let ja: int = if a < ok_pre.len() {
        assert(from_source(ok_pre[a], s0, i, av));
        choose|j: int| 0 <= j < i && swept_entry(ok_pre[a], s0[j], av)
    } else {
        i
    };
    let jb: int = if b < ok_pre.len() {
        assert(from_source(ok_pre[b], s0, i, av));
        choose|j: int| 0 <= j < i && swept_entry(ok_pre[b], s0[j], av)
    } else {
        i
    };
    assert(swept_entry(ok1[a], s0[ja], av));
    assert(swept_entry(ok1[b], s0[jb], av));
    lemma_keep_alive_contains(ids_of(s0[ja].clients@), av, c);
    assert(ids_of(s0[ja].clients@).contains(c));
    if ja == jb {
        assert(ok1[a].map_id == ok1[b].map_id);
        assert(false);
    }
    assert(!ids_of(s0[jb].clients@).contains(c));
    if ids_of(ok1[b].clients@).contains(c) {
        lemma_keep_alive_contains(ids_of(s0[jb].clients@), av, c);
        assert(false);
    }
}

proof fn lemma_push_entry_preserves_all(
    s0: Seq<ConnectedMap>,
    ok_pre: Seq<ConnectedMap>,
    e: ConnectedMap,
    i: int,
    av: Seq<u64>,
)
    requires
        entries_wf(s0),
        0 <= i < s0.len(),
        distinct_map_ids(ok_pre.push(e)),
        e.map_id == s0[i].map_id,
        ids_of(e.clients@) == keep_alive(ids_of(s0[i].clients@), av),
        ids_of(e.clients@).len() > 0,
        forall|j: int| 0 <= j < i ==> sweep_entry_ok(s0, ok_pre, j, av),
        forall|j: int| i <= j < s0.len() ==> !seq_has(ok_pre, s0[j].map_id),
    ensures
        forall|j: int| 0 <= j < i ==> sweep_entry_ok(s0, ok_pre.push(e), j, av),
        sweep_entry_ok(s0, ok_pre.push(e), i, av),
        forall|j: int| i < j < s0.len() ==> !seq_has(ok_pre.push(e), s0[j].map_id),
{
    let ok1 = ok_pre.push(e);
    assert forall|j: int| 0 <= j < i implies sweep_entry_ok(s0, ok1, j, av) by {
        assert(sweep_entry_ok(s0, ok_pre, j, av));
        assert(s0[j].map_id != e.map_id);
        lemma_push_entry_preserves(ok_pre, e, s0[j].map_id);
    }
    assert(sweep_entry_ok(s0, ok1, i, av)) by {
        let other: i32 = if e.map_id == 0i32 {
            1i32
        } else {
            0i32
        };
        lemma_push_entry_preserves(ok_pre, e, other);
    }
    assert forall|j: int| i < j < s0.len() implies !seq_has(ok1, s0[j].map_id) by {
        assert(s0[j].map_id != e.map_id);
        if seq_has(ok1, s0[j].map_id) {
            let k = seq_index_of(ok1, s0[j].map_id);
            assert(0 <= k < ok1.len() && ok1[k].map_id == s0[j].map_id);
            assert(k < ok_pre.len());
            assert(seq_has(ok_pre, s0[j].map_id));
        }
    }
}

proof fn lemma_sweep_post(s0: Seq<ConnectedMap>, s1: Seq<ConnectedMap>, av: Seq<u64>)
    requires
        entries_wf(s0),
        entries_wf(s1),
        swept_from(s1, s0, s0.len() as int, av),
        forall|j: int| 0 <= j < s0.len() ==> sweep_entry_ok(s0, s1, j, av),
    ensures
        forall|m: i32| seq_subs(s1, m) == keep_alive(seq_subs(s0, m), av),
        forall|m: i32| seq_has(s1, m) <==> keep_alive(seq_subs(s0, m), av).len() > 0,
        forall|c: u64| seq_has_client(s1, c) <==> (seq_has_client(s0, c) && av.contains(c)),
{
    assert forall|m: i32|
        seq_subs(s1, m) == keep_alive(seq_subs(s0, m), av) && (seq_has(s1, m) <==> keep_alive(
            seq_subs(s0, m),
            av,
        ).len() > 0) by {
        if seq_has(s0, m) {
            let j = seq_index_of(s0, m);
            lemma_unique_index(s0, j, m);
            assert(seq_subs(s0, m) == ids_of(s0[j].clients@));
            assert(sweep_entry_ok(s0, s1, j, av));
            if keep_alive(ids_of(s0[j].clients@), av).len() > 0 {
            } else {
                assert(!seq_has(s1, m));
                assert(seq_subs(s1, m) =~= keep_alive(seq_subs(s0, m), av));
            }
        } else {
            assert(seq_subs(s0, m) == Seq::<u64>::empty());
            keep_alive(seq_subs(s0, m), av).lemma_filter_len(|x: u64| av.contains(x));
            seq_subs(s0, m).lemma_filter_len(|x: u64| av.contains(x));
            assert(keep_alive(seq_subs(s0, m), av) =~= Seq::<u64>::empty());
            if seq_has(s1, m) {
                let k = seq_index_of(s1, m);
                assert(0 <= k < s1.len() && s1[k].map_id == m);
                assert(from_source(s1[k], s0, s0.len() as int, av));
                let j = choose|j: int| 0 <= j < s0.len() && swept_entry(s1[k], s0[j], av);
                assert(s0[j].map_id == m);
                assert(false);
            }
            assert(seq_subs(s1, m) =~= Seq::<u64>::empty());
        }
    }
    assert forall|c: u64| seq_has_client(s1, c) <==> (seq_has_client(s0, c) && av.contains(
        c,
    )) by {
        if seq_has_client(s1, c) {
            let k = choose|k: int| 0 <= k < s1.len() && ids_of(s1[k].clients@).contains(c);
            assert(from_source(s1[k], s0, s0.len() as int, av));
            let j = choose|j: int| 0 <= j < s0.len() && swept_entry(s1[k], s0[j], av);
            lemma_keep_alive_contains(ids_of(s0[j].clients@), av, c);
            assert(ids_of(s0[j].clients@).contains(c) && av.contains(c));
            assert(seq_has_client(s0, c));
        }
        if seq_has_client(s0, c) && av.contains(c) {
            let j = choose|j: int| 0 <= j < s0.len() && ids_of(s0[j].clients@).contains(c);
            let m = s0[j].map_id;
            lemma_unique_index(s0, j, m);
            lemma_keep_alive_contains(ids_of(s0[j].clients@), av, c);
            let survivors = keep_alive(ids_of(s0[j].clients@), av);
            assert(survivors.contains(c));
            assert(survivors.len() > 0);
            assert(sweep_entry_ok(s0, s1, j, av));
            assert(seq_subs(s1, m).contains(c));
            let k = seq_index_of(s1, m);
            assert(ids_of(s1[k].clients@).contains(c));
            assert(seq_has_client(s1, c));
        }
    }
}

proof fn lemma_push_id(cs: Seq<ConnectedClient>, c: ConnectedClient)
    ensures
        ids_of(cs.push(c)) == ids_of(cs).push(c.id),
{
    assert(ids_of(cs.push(c)) =~= ids_of(cs).push(c.id));
}

proof fn lemma_register_at(
    s0: Seq<ConnectedMap>,
    s1: Seq<ConnectedMap>,
    i: int,
    map_id: i32,
    client: ConnectedClient,
)
    requires
        entries_wf(s0),
        !seq_has_client(s0, client.id),
        0 <= i < s0.len(),
        s0[i].map_id == map_id,
        s1.len() == s0.len(),
        s1[i].map_id == map_id,
        s1[i].clients@ == s0[i].clients@.push(client),
        forall|k: int| 0 <= k < s1.len() && k != i ==> s1[k] == s0[k],
    ensures
        entries_wf(s1),
        seq_subs(s1, map_id) == seq_subs(s0, map_id).push(client.id),
        seq_has(s1, map_id),
        forall|m: i32| m != map_id ==> seq_subs(s1, m) == seq_subs(s0, m),
        forall|m: i32| m != map_id ==> (seq_has(s1, m) <==> seq_has(s0, m)),
        forall|c: u64| seq_has_client(s1, c) <==> (seq_has_client(s0, c) || c == client.id),
{
    lemma_push_id(s0[i].clients@, client);
    let ids0 = ids_of(s0[i].clients@);
    let ids1 = ids_of(s1[i].clients@);
    assert(ids1 == ids0.push(client.id));
    assert(!ids0.contains(client.id));

    // map identifiers are unchanged position by position
    assert forall|k: int| 0 <= k < s1.len() implies s1[k].map_id == s0[k].map_id by {}
    assert(distinct_map_ids(s1));

    // the grown entry has no duplicate identifiers
    assert(ids1.no_duplicates()) by {
        assert forall|x: int, y: int|
            0 <= x < ids1.len() && 0 <= y < ids1.len() && x != y implies ids1[x] != ids1[y] by {
            if x < ids0.len() && y < ids0.len() {
                assert(ids0[x] != ids0[y]);
            } else if y == ids0.len() {
                assert(ids0.contains(ids0[x]) && ids1[y] == client.id);
            } else {
                assert(ids0.contains(ids0[y]) && ids1[x] == client.id);
            }
        }
    }

    // disjointness across entries is preserved: the new identifier was
    // nowhere, every other identifier is where it was
    assert forall|a: int, b: int, c: u64|
        #![trigger ids_of(s1[a].clients@).contains(c), ids_of(s1[b].clients@).contains(c)]
        0 <= a < s1.len() && 0 <= b < s1.len() && a != b && ids_of(s1[a].clients@).contains(c)
            implies !ids_of(s1[b].clients@).contains(c) by {
        if a == i {
            if c == client.id {
                assert(!seq_has_client(s0, c));
                assert(!ids_of(s0[b].clients@).contains(c));
            } else {
                let k = choose|k: int| 0 <= k < ids1.len() && ids1[k] == c;
                assert(ids0[k] == c);
                assert(ids_of(s0[a].clients@).contains(c));
            }
        } else if b == i {
            assert(ids_of(s0[a].clients@).contains(c));
            if c == client.id {
                assert(seq_has_client(s0, c));
            } else {
                if ids1.contains(c) {
                    let k = choose|k: int| 0 <= k < ids1.len() && ids1[k] == c;
                    assert(k < ids0.len());
                    assert(ids0[k] == c);
                    assert(ids_of(s0[i].clients@).contains(c));
                    assert(false);
                }
            }
        } else {
            assert(ids_of(s0[a].clients@).contains(c));
        }
    }
    assert(entries_wf(s1));

    lemma_unique_index(s0, i, map_id);
    lemma_unique_index(s1, i, map_id);
    assert(seq_subs(s1, map_id) == seq_subs(s0, map_id).push(client.id));

    assert forall|m: i32| m != map_id implies seq_subs(s1, m) == seq_subs(s0, m) && (seq_has(s1, m)
        <==> seq_has(s0, m)) by {
        if seq_has(s0, m) {
            let k = seq_index_of(s0, m);
            assert(k != i);
            lemma_unique_index(s0, k, m);
            lemma_unique_index(s1, k, m);
        } else if seq_has(s1, m) {
            let k = seq_index_of(s1, m);
            assert(s0[k].map_id == m);
        }
    }

    assert forall|c: u64| seq_has_client(s1, c) <==> (seq_has_client(s0, c) || c
        == client.id) by {
        if seq_has_client(s0, c) {
            let k = choose|k: int| 0 <= k < s0.len() && ids_of(s0[k].clients@).contains(c);
            if k == i {
                assert(ids1.contains(c)) by {
                    let x = choose|x: int| 0 <= x < ids0.len() && ids0[x] == c;
                    assert(ids1[x] == c);
                }
            }
            assert(seq_has_client(s1, c));
        }
        if c == client.id {
            assert(ids1[ids0.len() as int] == c);
            assert(seq_has_client(s1, c));
        }
        if seq_has_client(s1, c) && c != client.id {
            let k = choose|k: int| 0 <= k < s1.len() && ids_of(s1[k].clients@).contains(c);
            if k == i {
                let x = choose|x: int| 0 <= x < ids1.len() && ids1[x] == c;
                assert(x < ids0.len());
                assert(ids0[x] == c);
                assert(ids_of(s0[k].clients@).contains(c));
            }
            assert(seq_has_client(s0, c));
        }
    }
}

proof fn lemma_register_new(
    s0: Seq<ConnectedMap>,
    s1: Seq<ConnectedMap>,
    map_id: i32,
    client: ConnectedClient,
)
    requires
        entries_wf(s0),
        !seq_has_client(s0, client.id),
        !seq_has(s0, map_id),
        s1.len() == s0.len() + 1,
        forall|k: int| 0 <= k < s0.len() ==> s1[k] == s0[k],
        s1[s0.len() as int].map_id == map_id,
        ids_of(s1[s0.len() as int].clients@) == seq![client.id],
    ensures
        entries_wf(s1),
        seq_subs(s1, map_id) == seq_subs(s0, map_id).push(client.id),
        seq_has(s1, map_id),
        forall|m: i32| m != map_id ==> seq_subs(s1, m) == seq_subs(s0, m),
        forall|m: i32| m != map_id ==> (seq_has(s1, m) <==> seq_has(s0, m)),
        forall|c: u64| seq_has_client(s1, c) <==> (seq_has_client(s0, c) || c == client.id),
{
    let n = s0.len() as int;
    let ids1 = ids_of(s1[n].clients@);
    assert(ids1 == seq![client.id]);
    assert(ids1.len() == 1);
    assert(s1[n].clients@.len() == 1);

    assert(distinct_map_ids(s1)) by {
        assert forall|i: int, j: int|
            0 <= i < s1.len() && 0 <= j < s1.len() && i != j implies s1[i].map_id
            != s1[j].map_id by {
            if i == n {
                assert(s0[j].map_id != map_id) by {
                    if s0[j].map_id == map_id {
                        assert(seq_has(s0, map_id));
                    }
                }
            } else if j == n {
                assert(s0[i].map_id != map_id) by {
                    if s0[i].map_id == map_id {
                        assert(seq_has(s0, map_id));
                    }
                }
            }
        }
    }

    assert(ids1.no_duplicates());

    assert forall|a: int, b: int, c: u64|
        #![trigger ids_of(s1[a].clients@).contains(c), ids_of(s1[b].clients@).contains(c)]
        0 <= a < s1.len() && 0 <= b < s1.len() && a != b && ids_of(s1[a].clients@).contains(c)
            implies !ids_of(s1[b].clients@).contains(c) by {
        if a == n {
            assert(c == client.id);
            assert(!ids_of(s0[b].clients@).contains(c));
        } else if b == n {
            assert(ids_of(s0[a].clients@).contains(c));
            assert(seq_has_client(s0, c));
            if ids1.contains(c) {
                assert(c == client.id);
            }
        } else {
            assert(ids_of(s0[a].clients@).contains(c));
        }
    }
    assert(entries_wf(s1));

    lemma_unique_index(s1, n, map_id);
    assert(seq_subs(s0, map_id) == Seq::<u64>::empty());
    assert(seq_subs(s1, map_id) =~= seq_subs(s0, map_id).push(client.id));

    assert forall|m: i32| m != map_id implies seq_subs(s1, m) == seq_subs(s0, m) && (seq_has(s1, m)
        <==> seq_has(s0, m)) by {
        if seq_has(s0, m) {
            let k = seq_index_of(s0, m);
            lemma_unique_index(s0, k, m);
            lemma_unique_index(s1, k, m);
        } else if seq_has(s1, m) {
            let k = seq_index_of(s1, m);
            assert(k == n);
        }
    }

    assert forall|c: u64| seq_has_client(s1, c) <==> (seq_has_client(s0, c) || c
        == client.id) by {
        if seq_has_client(s0, c) {
            let k = choose|k: int| 0 <= k < s0.len() && ids_of(s0[k].clients@).contains(c);
            assert(ids_of(s1[k].clients@).contains(c));
        }
        if c == client.id {
            assert(ids1[0] == c);
            assert(seq_has_client(s1, c));
        }
        if seq_has_client(s1, c) && c != client.id {
            let k = choose|k: int| 0 <= k < s1.len() && ids_of(s1[k].clients@).contains(c);
            if k == n {
                assert(c == client.id);
            } else {
                assert(seq_has_client(s0, c));
            }
        }
    }
}

} // verus!
