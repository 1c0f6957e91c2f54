//! The broker's correlation state and its transition rules: pending command
//! waiters keyed by request identifier, and per-topic subscriber lists.
//!
//! The broker is a state machine over plain values: subscriber channels are
//! named by `u64` handles, request identifiers are `u128` values. The caller
//! owns the actual channel endpoints and the event loop; it feeds every
//! decision through these functions and performs the deliveries they return,
//! so all mutation of the two tables happens here.
use vstd::prelude::*;

verus! {

use std::collections::HashMap;
use crate::request::{EventType, Request, TOPIC_COUNT};
use crate::text::vec_contains_u64;

broadcast use vstd::std_specs::hash::group_hash_axioms;

/// A subscriber channel that `closed` lists is pruned; every other one stays.
pub open spec fn live_subs(subs: Seq<u64>, closed: Seq<u64>) -> Seq<u64> {
    subs.filter(|c: u64| !closed.contains(c))
}

/// The broker's whole state: one subscriber list per topic (indexed by
/// [`EventType::index`]) and the pending command waiters.
pub struct Broker {
    pub subscribers: Vec<Vec<u64>>,
    pub waiters: HashMap<u128, u64>,
}

impl Broker {
    /// There is exactly one subscriber slot per topic.
    pub open spec fn wf(self) -> bool {
        self.subscribers@.len() == TOPIC_COUNT as int
    }

    /// The channels currently subscribed to a topic, in registration order.
    pub open spec fn subs_of(self, t: EventType) -> Seq<u64> {
        self.subscribers@[t.index_spec()]@
    }

    /// The pending command waiters: request identifier to channel.
    pub open spec fn waiters_of(self) -> Map<u128, u64> {
        self.waiters@
    }

    /// An empty broker: no subscribers on any topic, no waiters.
    pub fn new() -> (b: Broker)
        ensures
            b.wf(),
            forall|t: EventType| b.subs_of(t) == Seq::<u64>::empty(),
            b.waiters_of() == Map::<u128, u64>::empty(),
    {
        let mut subscribers: Vec<Vec<u64>> = Vec::new();
        while subscribers.len() < TOPIC_COUNT
            invariant
                subscribers@.len() <= TOPIC_COUNT as int,
                forall|i: int|
                    0 <= i < subscribers@.len() ==> subscribers@[i]@ == Seq::<u64>::empty(),
            decreases TOPIC_COUNT - subscribers.len(),
        {
            subscribers.push(Vec::new());
        }
        let b = Broker { subscribers, waiters: HashMap::new() };
        assert forall|t: EventType| b.subs_of(t) == Seq::<u64>::empty() by {
            t.lemma_index_bounds();
        }
        b
    }

    /// Registers an accepted client request. A subscription appends the
    /// client's channel to its topic's list; a command records the channel
    /// as the waiter for the request's identifier (a later request with the
    /// same identifier would overwrite the entry). Nothing else changes.
    pub fn on_client_request(&mut self, request: &Request, channel: u64)
        requires
            old(self).wf(),
        ensures
            final(self).wf(),
            match *request {
                Request::Subscribe(s) => {
                    &&& final(self).subs_of(s.body.event_name) == old(self).subs_of(
                        s.body.event_name,
                    ).push(channel)
                    &&& forall|t: EventType|
                        t != s.body.event_name ==> final(self).subs_of(t) == old(self).subs_of(t)
                    &&& final(self).waiters_of() == old(self).waiters_of()
                },
                Request::Command(c) => {
                    &&& final(self).waiters_of() == old(self).waiters_of().insert(
                        c.header.request_id,
                        channel,
                    )
                    &&& forall|t: EventType| final(self).subs_of(t) == old(self).subs_of(t)
                },
            },
    {
        match request {
            Request::Subscribe(s) => {
                let idx = s.event().index();
                let mut list = self.subscribers.remove(idx);
                list.push(channel);
                self.subscribers.insert(idx, list);
                proof {
                    assert(self.subscribers@ =~= old(self).subscribers@.update(
                        idx as int,
                        self.subscribers@[idx as int],
                    ));
                    assert forall|t: EventType|
                        t != s.body.event_name implies self.subs_of(t) == old(self).subs_of(t) by {
                        t.lemma_index_bounds();
                        assert(t.index_spec() != s.body.event_name.index_spec()) by {
                            match t {
                                EventType::PlayerMessage => {},
                            }
                        }
                    }
                }
            },
            Request::Command(c) => {
                self.waiters.insert(c.header.request_id, channel);
            },
        }
    }

    /// Handles one classified event notification: prunes every subscriber of
    /// the topic whose channel `closed` lists, and returns the remaining
    /// subscribers, in registration order — the channels the payload is to
    /// be delivered to. Other topics and the waiters are untouched.
    pub fn on_event(&mut self, topic: EventType, closed: &Vec<u64>) -> (live: Vec<u64>)
        requires
            old(self).wf(),
        ensures
            final(self).wf(),
            final(self).subs_of(topic) == live_subs(old(self).subs_of(topic), closed@),
            live@ == final(self).subs_of(topic),
            forall|t: EventType| t != topic ==> final(self).subs_of(t) == old(self).subs_of(t),
            final(self).waiters_of() == old(self).waiters_of(),
    {
        let idx = topic.index();
        let stale = self.subscribers.remove(idx);
        let ghost pred = |c: u64| !closed@.contains(c);
        let mut kept: Vec<u64> = Vec::new();
        let mut live: Vec<u64> = Vec::new();
        let mut i: usize = 0;
        proof {
            reveal(Seq::filter);
            assert(stale@.subrange(0, 0).filter(pred) =~= Seq::<u64>::empty());
        }
        while i < stale.len()
            invariant
                0 <= i <= stale@.len(),
                kept@ == stale@.subrange(0, i as int).filter(pred),
                live@ == kept@,
                pred == (|c: u64| !closed@.contains(c)),
            decreases stale@.len() - i,
        {
            let c = stale[i];
            proof {
                reveal(Seq::filter);
                let pre = stale@.subrange(0, i as int);
                let cur = stale@.subrange(0, i as int + 1);
                assert(cur.drop_last() =~= pre);
                assert(cur.last() == stale@[i as int]);
            }
            if !vec_contains_u64(closed, c) {
                kept.push(c);
                live.push(c);
            }
            i = i + 1;
        }
        self.subscribers.insert(idx, kept);
        proof {
            assert(stale@.subrange(0, stale@.len() as int) =~= stale@);
            assert(self.subscribers@ =~= old(self).subscribers@.update(
                idx as int,
                self.subscribers@[idx as int],
            ));
            assert forall|t: EventType|
                t != topic implies self.subs_of(t) == old(self).subs_of(t) by {
                t.lemma_index_bounds();
                assert(t.index_spec() != topic.index_spec()) by {
                    match t {
                        EventType::PlayerMessage => {},
                    }
                }
            }
        }
        live
    }

    /// Handles one classified generic response: if a waiter is registered
    /// under the echoed request identifier, removes it and returns its
    /// channel — the one the payload is to be delivered to. An orphaned
    /// response (no such waiter) returns `None` and leaves the whole state
    /// unchanged.
    pub fn on_response(&mut self, request_id: u128) -> (r: Option<u64>)
        requires
            old(self).wf(),
        ensures
            final(self).wf(),
            forall|t: EventType| final(self).subs_of(t) == old(self).subs_of(t),
            match r {
                Some(channel) => {
                    &&& old(self).waiters_of().contains_key(request_id)
                    &&& channel == old(self).waiters_of()[request_id]
                    &&& final(self).waiters_of() == old(self).waiters_of().remove(request_id)
                },
                None => {
                    &&& !old(self).waiters_of().contains_key(request_id)
                    &&& final(self).waiters_of() == old(self).waiters_of()
                },
            },
    {
        let r = self.waiters.remove(&request_id);
        proof {
            if !old(self).waiters@.contains_key(request_id) {
                assert(self.waiters@ =~= old(self).waiters@);
            }
        }
        r
    }
}

} // verus!
