//! Observable model of the notification protocol.
//!
//! The broadcaster's operations are verified against the registry they
//! mutate; this module models what a remote consumer can observe: for
//! every accepted handle, the sequence of frames pushed to its stream.
//! Each transition below is the specification of one critical section as
//! the runtime drives it — accepting a subscription (channel allocated,
//! acknowledgement pushed, handle registered), broadcasting one action
//! (frame encoded once, pushed to every subscriber of the map), and one
//! sweep tick (every handle probed, survivors kept).  The laws at the end
//! state the delivery guarantees a consumer can rely on.

use vstd::prelude::*;

use crate::actions::Action;
use crate::broadcaster::keep_alive;
use crate::broadcaster::Broadcaster;
use crate::wire::action_wire;

verus! {

/// One frame on a subscriber's event stream.
pub enum Frame {
    /// The literal acknowledgement sent once, immediately after the
    /// subscription succeeds.
    Connected,
    /// A contentless liveness probe the consumer is expected to ignore.
    Heartbeat,
    /// One broadcast action, carried as its wire text.
    ActionFrame(Seq<char>),
}

/// The observable state: the registry (map identifier to subscriber
/// sequence) together with the frames pushed so far to every accepted
/// handle's stream.
pub struct SystemModel {
    /// Which handles watch which map, in registration order.
    pub registry: Map<i32, Seq<u64>>,
    /// For every handle ever accepted, the frames pushed to its stream.
    pub streams: Map<u64, Seq<Frame>>,
}

/// The subscribers of map `m`; empty when the registry has no entry.
pub open spec fn subs(s: SystemModel, m: i32) -> Seq<u64> {
    if s.registry.dom().contains(m) {
        s.registry[m]
    } else {
        Seq::empty()
    }
}

/// Whether some map's subscriber sequence holds the handle `c`.
pub open spec fn registered(s: SystemModel, c: u64) -> bool {
    exists|m: i32| subs(s, m).contains(c)
}

/// The state before any subscription: no entries, no streams.
pub open spec fn init() -> SystemModel {
    SystemModel { registry: Map::empty(), streams: Map::empty() }
}

/// An accepted subscription of fresh handle `c` to map `m`: the
/// acknowledgement frame is pushed first, then the handle joins the end of
/// `m`'s subscriber sequence.  A rejected subscription leaves the state
/// unchanged, so it needs no transition.
pub open spec fn subscribe_ok(s: SystemModel, m: i32, c: u64) -> SystemModel {
    SystemModel {
        registry: s.registry.insert(m, subs(s, m).push(c)),
        streams: s.streams.insert(c, seq![Frame::Connected]),
    }
}

/// One broadcast of action `a` to map `m`: the wire frame is pushed to
/// exactly the current subscribers of `m`; every other stream and the
/// registry itself are untouched.
pub open spec fn broadcast_to(s: SystemModel, m: i32, a: Action) -> SystemModel {
    SystemModel {
        registry: s.registry,
        streams: Map::new(
            |c: u64| s.streams.dom().contains(c),
            |c: u64|
                if subs(s, m).contains(c) {
                    s.streams[c].push(Frame::ActionFrame(action_wire(a)))
                } else {
                    s.streams[c]
                },
        ),
    }
}

/// One sweep tick with probe outcome `alive`: every registered handle is
/// probed, a successful probe shows as a heartbeat frame, and only the
/// handles probed alive stay registered; a map left without survivors
/// loses its entry.
pub open spec fn sweep(s: SystemModel, alive: Seq<u64>) -> SystemModel {
    SystemModel {
        registry: Map::new(
            |m: i32| s.registry.dom().contains(m) && keep_alive(subs(s, m), alive).len() > 0,
            |m: i32| keep_alive(subs(s, m), alive),
        ),
        streams: Map::new(
            |c: u64| s.streams.dom().contains(c),
            |c: u64|
                if registered(s, c) && alive.contains(c) {
                    s.streams[c].push(Frame::Heartbeat)
                } else {
                    s.streams[c]
                },
        ),
    }
}

/// Every registered handle has a stream, and the first frame ever pushed
/// to it was the connected acknowledgement.
pub open spec fn inv(s: SystemModel) -> bool {
    forall|m: i32, c: u64|
        #[trigger] subs(s, m).contains(c) ==> s.streams.dom().contains(c) && s.streams[c].len() >= 1
            && s.streams[c][0] == Frame::Connected
}

/// The initial state satisfies the stream invariant.
pub proof fn lemma_init_inv()
    ensures
        inv(init()),
{
}

/// After `subscribe(m)` succeeds for a fresh handle, the very first frame
/// observed on the returned stream is the connected acknowledgement —
/// before any action frame; and the stream invariant is preserved.
pub proof fn lemma_first_frame_connected(s: SystemModel, m: i32, c: u64)
    requires
        inv(s),
        !s.streams.dom().contains(c),
    ensures
        subscribe_ok(s, m, c).streams[c] == seq![Frame::Connected],
        subscribe_ok(s, m, c).streams[c][0] == Frame::Connected,
        inv(subscribe_ok(s, m, c)),
{
    let s1 = subscribe_ok(s, m, c);
    assert forall|m2: i32, c2: u64| #[trigger] subs(s1, m2).contains(c2) implies s1.streams.dom()
        .contains(c2) && s1.streams[c2].len() >= 1 && s1.streams[c2][0] == Frame::Connected by {
        if c2 == c {
            assert(s1.streams[c] == seq![Frame::Connected]);
        } else {
            if m2 == m {
                let k = choose|k: int| 0 <= k < subs(s1, m2).len() && subs(s1, m2)[k] == c2;
                assert(k < subs(s, m).len());
                assert(subs(s, m).contains(c2));
            } else {
                assert(subs(s1, m2) == subs(s, m2));
            }
            assert(s.streams.dom().contains(c2));
            assert(s1.streams[c2] == s.streams[c2]);
        }
    }
}

/// Broadcasting to a map with no subscribers returns success and causes no
/// observable effect: the registry and every stream are unchanged.
pub proof fn lemma_broadcast_no_subscribers(s: SystemModel, m: i32, a: Action)
    requires
        subs(s, m) == Seq::<u64>::empty(),
    ensures
        broadcast_to(s, m, a).registry == s.registry,
        broadcast_to(s, m, a).streams =~= s.streams,
{
    let s1 = broadcast_to(s, m, a);
    assert forall|c: u64| s1.streams.dom().contains(c) implies s1.streams[c] == s.streams[c] by {
        assert(!subs(s, m).contains(c));
    }
}

/// If a broadcast reaches a map whose only subscriber is `c`, that
/// handle's stream gains exactly one action frame — the wire form of the
/// action — and no other stream changes.
pub proof fn lemma_broadcast_single_subscriber(s: SystemModel, m: i32, a: Action, c: u64)
    requires
        inv(s),
        subs(s, m) == seq![c],
    ensures
        broadcast_to(s, m, a).streams[c] == s.streams[c].push(Frame::ActionFrame(action_wire(a))),
        forall|c2: u64|
            c2 != c && s.streams.dom().contains(c2) ==> broadcast_to(s, m, a).streams[c2]
                == s.streams[c2],
        inv(broadcast_to(s, m, a)),
{
    assert(subs(s, m).contains(c)) by {
        assert(subs(s, m)[0] == c);
    }
    assert forall|c2: u64| c2 != c && s.streams.dom().contains(c2) implies broadcast_to(
        s,
        m,
        a,
    ).streams[c2] == s.streams[c2] by {
        if subs(s, m).contains(c2) {
            let k = choose|k: int| 0 <= k < subs(s, m).len() && subs(s, m)[k] == c2;
            assert(subs(s, m)[0] == c);
        }
    }
    lemma_broadcast_inv(s, m, a);
}

/// A broadcast preserves the stream invariant: it only ever appends.
pub proof fn lemma_broadcast_inv(s: SystemModel, m: i32, a: Action)
    requires
        inv(s),
    ensures
        inv(broadcast_to(s, m, a)),
{
    let s1 = broadcast_to(s, m, a);
    assert forall|m2: i32, c2: u64| #[trigger] subs(s1, m2).contains(c2) implies s1.streams.dom()
        .contains(c2) && s1.streams[c2].len() >= 1 && s1.streams[c2][0] == Frame::Connected by {
        assert(subs(s1, m2) == subs(s, m2));
        assert(subs(s, m2).contains(c2));
    }
}

/// If `a1` and then `a2` are broadcast to the same map, a subscriber of
/// that map observes the two action frames in that order, appended after
/// everything it had observed before.
pub proof fn lemma_broadcast_order(s: SystemModel, m: i32, a1: Action, a2: Action, c: u64)
    requires
        inv(s),
        subs(s, m).contains(c),
    ensures
        broadcast_to(broadcast_to(s, m, a1), m, a2).streams[c] == s.streams[c].push(
            Frame::ActionFrame(action_wire(a1)),
        ).push(Frame::ActionFrame(action_wire(a2))),
{
    let s1 = broadcast_to(s, m, a1);
    assert(subs(s1, m) == subs(s, m));
    assert(s1.streams.dom().contains(c));
    assert(s1.streams[c] == s.streams[c].push(Frame::ActionFrame(action_wire(a1))));
}

/// After a sweep tick every map keeps exactly its survivors: a handle
/// whose probe failed is absent from the whole registry, and the
/// subscribers of every map are its previous subscribers probed alive, in
/// their original order.  The stream invariant is preserved.
pub proof fn lemma_sweep_removes(s: SystemModel, alive: Seq<u64>)
    requires
        inv(s),
    ensures
        forall|m: i32| subs(sweep(s, alive), m) == keep_alive(subs(s, m), alive),
        forall|m: i32, c: u64| !alive.contains(c) ==> !(#[trigger] subs(sweep(s, alive), m).contains(c)),
        inv(sweep(s, alive)),
{
    let s1 = sweep(s, alive);
    assert forall|m: i32| subs(s1, m) == keep_alive(subs(s, m), alive) by {
        if !(s.registry.dom().contains(m) && keep_alive(subs(s, m), alive).len() > 0) {
            if !s.registry.dom().contains(m) {
                subs(s, m).lemma_filter_len(|c: u64| alive.contains(c));
            }
            assert(subs(s1, m) =~= keep_alive(subs(s, m), alive));
        }
    }
    assert forall|m: i32, c: u64| !alive.contains(c) implies !(#[trigger] subs(s1, m).contains(
        c,
    )) by {
        crate::broadcaster::lemma_keep_alive_contains(subs(s, m), alive, c);
    }
    assert forall|m2: i32, c2: u64| #[trigger] subs(s1, m2).contains(c2) implies s1.streams.dom()
        .contains(c2) && s1.streams[c2].len() >= 1 && s1.streams[c2][0] == Frame::Connected by {
        crate::broadcaster::lemma_keep_alive_contains(subs(s, m2), alive, c2);
        assert(subs(s, m2).contains(c2));
    }
}

/// A model state describes a registry value when they agree on every
/// map's subscriber sequence.
pub open spec fn models(s: SystemModel, b: Broadcaster) -> bool {
    forall|m: i32| subs(s, m) == b.subscribers(m)
}

/// An accepted subscription moves the executable registry exactly as the
/// model's subscription transition moves the model: the contract of
/// [`Broadcaster::new_client`] is the registry half of [`subscribe_ok`].
pub proof fn lemma_new_client_matches_model(
    pre: Broadcaster,
    post: Broadcaster,
    s: SystemModel,
    m: i32,
    c: u64,
)
    requires
        models(s, pre),
        post.subscribers(m) == pre.subscribers(m).push(c),
        forall|m2: i32| m2 != m ==> post.subscribers(m2) == pre.subscribers(m2),
    ensures
        models(subscribe_ok(s, m, c), post),
{
    let s1 = subscribe_ok(s, m, c);
    assert forall|m2: i32| subs(s1, m2) == post.subscribers(m2) by {
        if m2 == m {
            assert(subs(s1, m) == subs(s, m).push(c));
        } else {
            assert(subs(s1, m2) == subs(s, m2));
        }
    }
}

/// A sweep moves the executable registry exactly as the model's sweep
/// transition moves the model: the contract of
/// [`Broadcaster::remove_stale_clients`] is the registry half of
/// [`sweep`].
pub proof fn lemma_sweep_matches_model(
    pre: Broadcaster,
    post: Broadcaster,
    s: SystemModel,
    alive: Seq<u64>,
)
    requires
        models(s, pre),
        forall|m: i32| post.subscribers(m) == keep_alive(pre.subscribers(m), alive),
    ensures
        models(sweep(s, alive), post),
{
    let s1 = sweep(s, alive);
    assert forall|m: i32| subs(s1, m) == post.subscribers(m) by {
        if !(s.registry.dom().contains(m) && keep_alive(subs(s, m), alive).len() > 0) {
            if !s.registry.dom().contains(m) {
                subs(s, m).lemma_filter_len(|c: u64| alive.contains(c));
            }
            assert(subs(s1, m) =~= keep_alive(subs(s, m), alive));
        }
    }
}

/// A broadcast leaves the registry as it was, in the model as in the
/// executable broadcaster, whose broadcast borrows the registry
/// immutably.
pub proof fn lemma_broadcast_matches_model(b: Broadcaster, s: SystemModel, m: i32, a: Action)
    requires
        models(s, b),
    ensures
        models(broadcast_to(s, m, a), b),
{
}

} // verus!
