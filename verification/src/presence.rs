//! The periodic tick: the local reputation goes out to every contact, pending
//! contact requests are settled or sent again, and the timer is set anew.

use crate::outbox::{contact_requests, contact_requests_for, score_updates, score_updates_for};
use crate::peers::remove_listed;
use crate::structs::{Outbound, OutboundView, State, StateView, outbox};
use vstd::prelude::*;

verus! {

/// The delay of the first tick after the start, in milliseconds.
pub const FIRST_TICK_MILLIS: u64 = 10_000;

/// The delay between one tick and the next, in milliseconds.
pub const TICK_PERIOD_MILLIS: u64 = 30_000;

/// What a tick sends in the state `s`: the local reputation to every contact,
/// a contact request to every peer that is pending and not a contact, and the
/// order to tick again after the period.
pub open spec fn tick_messages(s: StateView) -> Seq<OutboundView> {
    score_updates(s.contacts, s.gossip_payload()) + contact_requests(
        s.settle_pending().pending_contact_requests,
    ) + seq![OutboundView::Timer { millis: TICK_PERIOD_MILLIS }]
}

/// The local node's reputation entry, for every contact.
pub fn push_update_to_your_contacts(state: &State) -> (out: Vec<Outbound>)
    ensures
        outbox(out@) == score_updates(state@.contacts, state@.gossip_payload()),
{
    score_updates_for(&state.contacts, state.gossip_payload())
}

/// Drops from the pending list every peer that has become a contact, and
/// asks every peer that stays on it once more. There is no limit to how often
/// a peer is asked.
pub fn resend_pending_requests(state: &mut State) -> (out: Vec<Outbound>)
    ensures
        final(state)@ == old(state)@.settle_pending(),
        outbox(out@) == contact_requests(final(state)@.pending_contact_requests),
{
    remove_listed(&mut state.pending_contact_requests, &state.contacts);
    contact_requests_for(&state.pending_contact_requests)
}

/// One tick of the timer.
pub fn handle_timer_events(state: &mut State) -> (out: Vec<Outbound>)
    ensures
        final(state)@ == old(state)@.settle_pending(),
        outbox(out@) == tick_messages(old(state)@),
{
    let mut out = push_update_to_your_contacts(state);
    let mut resent = resend_pending_requests(state);
    let ghost first = out@;
    let ghost second = resent@;
    out.append(&mut resent);
    out.push(Outbound::Timer { millis: TICK_PERIOD_MILLIS });
    assert(outbox(out@) =~= outbox(first) + outbox(second) + seq![
        OutboundView::Timer { millis: TICK_PERIOD_MILLIS },
    ]);
    out
}

/// What the node sends when it starts: the order for the first tick.
pub fn first_timer() -> (out: Vec<Outbound>)
    ensures
        outbox(out@) == seq![OutboundView::Timer { millis: FIRST_TICK_MILLIS }],
{
    let mut out: Vec<Outbound> = Vec::new();
    out.push(Outbound::Timer { millis: FIRST_TICK_MILLIS });
    assert(outbox(out@) =~= seq![OutboundView::Timer { millis: FIRST_TICK_MILLIS }]);
    out
}

} // verus!
