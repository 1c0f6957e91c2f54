//! The broker's correlation and fan-out laws, stated over the same spec
//! model (`Map` of waiters, `Seq` of subscribers) that the `ensures` of
//! [`crate::broker::Broker`]'s transitions speak of.
use vstd::prelude::*;

verus! {

use crate::broker::live_subs;

/// Law: responses are correlated by request identifier, and each waiter is
/// consumed at most once. After two commands with distinct identifiers are
/// registered, the waiter table maps each identifier to exactly the channel
/// that submitted it; consuming one identifier's entry delivers to that
/// channel only, leaves the other command's entry intact, and a second
/// response with the same identifier finds no waiter.
pub proof fn lemma_correlation_uniqueness(
    waiters: Map<u128, u64>,
    id1: u128,
    ch1: u64,
    id2: u128,
    ch2: u64,
)
    requires
        id1 != id2,
    ensures
        ({
            let registered = waiters.insert(id1, ch1).insert(id2, ch2);
            &&& registered[id1] == ch1
            &&& registered[id2] == ch2
            &&& registered.remove(id1)[id2] == ch2
            &&& !registered.remove(id1).contains_key(id1)
            &&& registered.remove(id2)[id1] == ch1
            &&& !registered.remove(id2).contains_key(id2)
        }),
{
}

/// Law: fan-out is complete and exclusive. The delivery list for a topic's
/// notification holds a channel exactly when that channel is subscribed to
/// the topic and its connection is not closed — every live subscriber of the
/// topic receives the event, and no channel outside the topic's subscriber
/// list receives it. (Delivery order is registration order, since
/// `live_subs` filters the subscriber list in place.)
pub proof fn lemma_fanout_delivery(subs: Seq<u64>, closed: Seq<u64>, channel: u64)
    ensures
        live_subs(subs, closed).contains(channel) <==> (subs.contains(channel)
            && !closed.contains(channel)),
{
    let pred = |c: u64| !closed.contains(c);
    subs.filter_lemma(pred);
    if live_subs(subs, closed).contains(channel) {
        subs.lemma_filter_contains_rev(pred, channel);
        let i = choose|i: int|
            0 <= i < subs.filter(pred).len() && subs.filter(pred)[i] == channel;
        assert(pred(subs.filter(pred)[i]));
    }
    if subs.contains(channel) && !closed.contains(channel) {
        let i = choose|i: int| 0 <= i < subs.len() && subs[i] == channel;
        assert(pred(subs[i]));
        assert(subs.filter(pred).contains(subs[i]));
    }
}

/// Every element of a sequence that the predicate accepts is kept by
/// `filter`, so a sequence of accepted elements filters to itself.
proof fn lemma_filter_all_kept(s: Seq<u64>, pred: spec_fn(u64) -> bool)
    requires
        forall|i: int| 0 <= i < s.len() ==> pred(s[i]),
    ensures
        s.filter(pred) == s,
    decreases s.len(),
{
    reveal(Seq::filter);
    if s.len() == 0 {
        assert(s.filter(pred) =~= s);
    } else {
        lemma_filter_all_kept(s.drop_last(), pred);
        assert(s.filter(pred) =~= s);
    }
}

/// Law: pruning removes stale subscribers and does not let the list grow.
/// After a notification is handled, no channel whose connection is closed
/// remains subscribed, the list is no longer than before, and handling
/// further notifications with the same closed set leaves the list exactly as
/// it is — repeated closed-connection notification cycles reach a fixed
/// point instead of growing.
pub proof fn lemma_pruning(subs: Seq<u64>, closed: Seq<u64>)
    ensures
        forall|ch: u64|
            closed.contains(ch) ==> !(#[trigger] live_subs(subs, closed).contains(ch)),
        live_subs(subs, closed).len() <= subs.len(),
        live_subs(live_subs(subs, closed), closed) == live_subs(subs, closed),
{
    let pred = |c: u64| !closed.contains(c);
    let live = subs.filter(pred);
    subs.filter_lemma(pred);
    assert forall|ch: u64|
        closed.contains(ch) implies !(#[trigger] live_subs(subs, closed).contains(ch)) by {
        if live.contains(ch) {
            let i = choose|i: int| 0 <= i < live.len() && live[i] == ch;
            assert(pred(live[i]));
        }
    }
    lemma_filter_all_kept(live, pred);
}

} // verus!
