//! What a run guarantees: the laws of the dispatcher, stated of its states
//! as mathematical values and proved of every run.

use crate::baseline::WildcardBaseline;
use crate::config::TargetView;
use crate::dispatch::{
    lemma_poll_keeps_wf, lemma_react_keeps_wf, occupied, opening, DispatchView, DispatcherView,
    ReactionView, Slot,
};
use crate::error::RunErrorView;
use crate::request::{request_of, Method, Outcome, RequestView};
use vstd::prelude::*;

verus! {

/// How many steps the probe in a slot is from its end.
pub open spec fn slot_work(slot: Slot) -> nat {
    match slot {
        Slot::Free => 0,
        Slot::Classifying { .. } => 2,
        Slot::Measuring { .. } => 1,
    }
}

/// How many steps the probes of a table are from their ends, taken together.
pub open spec fn slots_work(slots: Seq<Slot>) -> nat
    decreases slots.len(),
{
    if slots.len() == 0 {
        0
    } else {
        slots_work(slots.drop_last()) + slot_work(slots.last())
    }
}

/// Something that happens to a dispatcher.
pub enum Event {
    /// It is polled.
    Poll,
    /// It is told how the request under a ticket ended.
    Response { ticket: usize, outcome: Outcome },
}

impl DispatcherView {
    /// How far the run is from its end, in steps: three for every candidate
    /// not yet dispatched (it is sent, classified, and at most measured),
    /// and for every probe in flight the steps that it has left.
    pub open spec fn work_left(self) -> nat {
        (3 * (self.candidates.len() - self.next) + slots_work(self.slots)) as nat
    }

    /// The state after one event.
    pub open spec fn step(self, event: Event) -> DispatcherView {
        match event {
            Event::Poll => self.poll().0,
            Event::Response { ticket, outcome } => self.react(ticket, outcome).0,
        }
    }

    /// The state after a series of events.
    pub open spec fn after(self, events: Seq<Event>) -> DispatcherView
        decreases events.len(),
    {
        if events.len() == 0 {
            self
        } else {
            self.after(events.drop_last()).step(events.last())
        }
    }

    /// The requests that the polls of a series of events sent off, in the
    /// order in which they were sent.
    pub open spec fn sent(self, events: Seq<Event>) -> Seq<RequestView>
        decreases events.len(),
    {
        if events.len() == 0 {
            Seq::<RequestView>::empty()
        } else {
            let earlier = self.sent(events.drop_last());
            match events.last() {
                Event::Poll => match self.after(events.drop_last()).poll().1 {
                    DispatchView::Send { request, .. } => earlier.push(request),
                    _ => earlier,
                },
                Event::Response { .. } => earlier,
            }
        }
    }

    /// How many probes came to their end in a series of events, with a
    /// result or with a failure.
    pub open spec fn ended(self, events: Seq<Event>) -> nat
        decreases events.len(),
    {
        if events.len() == 0 {
            0
        } else {
            let earlier = self.ended(events.drop_last());
            match events.last() {
                Event::Poll => earlier,
                Event::Response { ticket, outcome } => match self.after(events.drop_last()).react(
                    ticket,
                    outcome,
                ).1 {
                    ReactionView::Report(_) => earlier + 1,
                    ReactionView::Skip(_) => earlier + 1,
                    _ => earlier,
                },
            }
        }
    }
}

/// No table holds more probes than it has slots, and a table without a free
/// slot holds as many.
pub proof fn lemma_occupied_bound(slots: Seq<Slot>)
    ensures
        occupied(slots) <= slots.len(),
        !slots.contains(Slot::Free) ==> occupied(slots) == slots.len(),
    decreases slots.len(),
{
    if slots.len() > 0 {
        lemma_occupied_bound(slots.drop_last());
        if !slots.contains(Slot::Free) {
            assert forall|i: int| 0 <= i < slots.drop_last().len() implies slots.drop_last()[i]
                != Slot::Free by {
                assert(slots[i] != Slot::Free);
            }
        }
    }
}

/// The concurrency bound: in a well-formed state no more probes are in
/// flight than the limit allows.
pub proof fn lemma_in_flight_bounded(state: DispatcherView)
    requires
        state.wf(),
    ensures
        state.in_flight() <= state.target.concurrency,
{
    lemma_occupied_bound(state.slots);
}

/// A run that opens is well formed from its first state on, with nothing
/// dispatched and nothing in flight.
pub proof fn lemma_opening_is_well_formed(
    target: TargetView,
    url: Seq<char>,
    outcome: Outcome,
    candidates: Seq<Seq<char>>,
)
    requires
        target.wf(),
        candidates.len() <= usize::MAX,
    ensures
        (opening(target, url, outcome, candidates) matches Ok(start) ==> {
            &&& start.wf()
            &&& start.next == 0
            &&& start.in_flight() == 0
            &&& start.target == target
            &&& start.candidates == candidates
        }),
{
    match opening(target, url, outcome, candidates) {
        Ok(start) => {
            lemma_slots_work_none(start.slots);
            lemma_no_work_in_free_slots(start.slots);
        },
        Err(_) => {},
    }
}

/// The baseline check stands before the dispatch. Where the baseline
/// request brings an accepted status and the run is not forced, the run
/// does not open: the error names the URL and the status, and there is no
/// state from which a candidate could be dispatched. Where the run is
/// forced it opens all the same, with every candidate ahead of it. Without
/// a response to the baseline request no run opens, forced or not.
pub proof fn lemma_wildcard_gating(
    target: TargetView,
    url: Seq<char>,
    outcome: Outcome,
    candidates: Seq<Seq<char>>,
)
    ensures
        (outcome matches Ok(response) ==> {
            let wildcard = target.accepted.contains(response.status);
            let baseline = WildcardBaseline { status: response.status, is_wildcard: wildcard };
            &&& wildcard && !target.wildcard_forced ==> opening(target, url, outcome, candidates)
                == Err::<DispatcherView, RunErrorView>(
                RunErrorView::WildcardDetected { url, status: response.status },
            )
            &&& !wildcard || target.wildcard_forced ==> opening(target, url, outcome, candidates)
                == Ok::<DispatcherView, RunErrorView>(
                DispatcherView::initial(target, url, baseline, candidates),
            )
        }),
        (outcome matches Err(failure) ==> opening(target, url, outcome, candidates) == Err::<
            DispatcherView,
            RunErrorView,
        >(RunErrorView::BaselineNetwork { failure })),
{
}

/// The concurrency bound holds at every point of every run: whatever is
/// polled and whatever responses come in, in whatever order and under
/// whatever tickets, the state stays well formed and the probes in flight
/// stay within the limit. The configuration and the candidates never change.
pub proof fn lemma_never_over_the_limit(start: DispatcherView, events: Seq<Event>)
    requires
        start.wf(),
    ensures
        start.after(events).wf(),
        start.after(events).in_flight() <= start.target.concurrency,
        start.after(events).target == start.target,
        start.after(events).candidates == start.candidates,
    decreases events.len(),
{
    if events.len() > 0 {
        lemma_never_over_the_limit(start, events.drop_last());
        let before = start.after(events.drop_last());
        match events.last() {
            Event::Poll => {
                lemma_poll_keeps_wf(before);
            },
            Event::Response { ticket, outcome } => {
                lemma_react_keeps_wf(before, ticket, outcome);
            },
        }
    }
    lemma_in_flight_bounded(start.after(events));
}

/// Changing one slot changes the number of probes in a table by one for a
/// slot that is taken, and by one for a slot that is freed.
proof fn lemma_occupied_update(slots: Seq<Slot>, ticket: int, slot: Slot)
    requires
        0 <= ticket < slots.len(),
    ensures
        occupied(slots.update(ticket, slot)) + (if slots[ticket] == Slot::Free {
            0nat
        } else {
            1nat
        }) == occupied(slots) + (if slot == Slot::Free {
            0nat
        } else {
            1nat
        }),
    decreases slots.len(),
{
    if ticket == slots.len() - 1 {
        assert(slots.update(ticket, slot).drop_last() =~= slots.drop_last());
    } else {
        lemma_occupied_update(slots.drop_last(), ticket, slot);
        assert(slots.update(ticket, slot).drop_last() =~= slots.drop_last().update(ticket, slot));
    }
}

/// Every candidate is dispatched once, in the order of the wordlist, and
/// every probe is accounted for. Whatever the events of a run are, the
/// requests that its polls have sent are the `HEAD` requests for the
/// candidates dispatched so far, one each and in their order; and every
/// probe that was sent off has either come to its end, with a result or
/// with a failure, or is still in flight. So when the run is finished, as
/// many probes have ended as there are candidates: a probe that fails takes
/// nothing from the others.
pub proof fn lemma_run_accounts(start: DispatcherView, events: Seq<Event>)
    requires
        start.wf(),
    ensures
        start.after(events).next == start.next + start.sent(events).len(),
        forall|k: int|
            0 <= k < start.sent(events).len() ==> #[trigger] start.sent(events)[k] == request_of(
                start.target,
                Method::Head,
                start.candidates[start.next + k],
            ),
        start.ended(events) + start.after(events).in_flight() == start.in_flight() + start.sent(
            events,
        ).len(),
    decreases events.len(),
{
    if events.len() > 0 {
        let earlier = events.drop_last();
        let before = start.after(earlier);
        lemma_run_accounts(start, earlier);
        lemma_never_over_the_limit(start, earlier);
        match events.last() {
            Event::Poll => {
                lemma_poll_answers(before);
                before.slots.index_of_first_ensures(Slot::Free);
                match before.poll().1 {
                    DispatchView::Send { ticket, .. } => {
                        lemma_occupied_update(
                            before.slots,
                            ticket as int,
                            Slot::Classifying { candidate: before.next },
                        );
                    },
                    _ => {},
                }
            },
            Event::Response { ticket, outcome } => {
                if ticket < before.slots.len() {
                    let after = before.react(ticket, outcome).0;
                    lemma_occupied_update(before.slots, ticket as int, after.slots[ticket as int]);
                }
            },
        }
    }
}

/// A poll answers with what the state calls for. It sends off the next
/// candidate, in the order of the wordlist and with a `HEAD` request,
/// whenever a candidate is left and a slot is free, and gives it the first
/// of the free slots. It tells the caller to
/// wait only while a request is under way, so the wait ends. And it calls
/// the run finished only when every candidate has been dispatched and none
/// is in flight.
pub proof fn lemma_poll_answers(state: DispatcherView)
    requires
        state.wf(),
    ensures
        (match state.poll().1 {
            DispatchView::Send { ticket, request } => {
                &&& state.next < state.candidates.len()
                &&& ticket < state.slots.len()
                &&& state.slots[ticket as int] == Slot::Free
                &&& forall|before: int| 0 <= before < ticket ==> state.slots[before] != Slot::Free
                &&& state.poll().0.slots[ticket as int] == (Slot::Classifying {
                    candidate: state.next,
                })
                &&& state.poll().0.next == state.next + 1
                &&& request == request_of(
                    state.target,
                    Method::Head,
                    state.candidates[state.next as int],
                )
            },
            DispatchView::Wait => state.in_flight() > 0 && state.poll().0 == state,
            DispatchView::Finished => {
                &&& state.next == state.candidates.len()
                &&& state.in_flight() == 0
                &&& state.poll().0 == state
            },
        }),
        state.next < state.candidates.len() && state.in_flight() < state.target.concurrency
            ==> state.poll().1 is Send,
{
    state.slots.index_of_first_ensures(Slot::Free);
    lemma_occupied_bound(state.slots);
}

/// Changing one slot changes the work of the table by the difference
/// between the two slots.
proof fn lemma_slots_work_update(slots: Seq<Slot>, ticket: int, slot: Slot)
    requires
        0 <= ticket < slots.len(),
    ensures
        slots_work(slots.update(ticket, slot)) == slots_work(slots) - slot_work(slots[ticket])
            + slot_work(slot),
    decreases slots.len(),
{
    if ticket == slots.len() - 1 {
        assert(slots.update(ticket, slot).drop_last() =~= slots.drop_last());
    } else {
        lemma_slots_work_update(slots.drop_last(), ticket, slot);
        assert(slots.update(ticket, slot).drop_last() =~= slots.drop_last().update(ticket, slot));
    }
}

/// A table of free slots has no work left.
proof fn lemma_no_work_in_free_slots(slots: Seq<Slot>)
    requires
        forall|i: int| 0 <= i < slots.len() ==> slots[i] == Slot::Free,
    ensures
        slots_work(slots) == 0,
    decreases slots.len(),
{
    if slots.len() > 0 {
        lemma_no_work_in_free_slots(slots.drop_last());
    }
}

/// A table has work left exactly when it holds a probe.
proof fn lemma_slots_work_none(slots: Seq<Slot>)
    ensures
        slots_work(slots) == 0 <==> occupied(slots) == 0,
    decreases slots.len(),
{
    if slots.len() > 0 {
        lemma_slots_work_none(slots.drop_last());
    }
}

/// Every run comes to its end, and not before its work is done. A poll
/// that sends a request and a response that is not ignored each bring the
/// run at least one step closer to its end; a response that is ignored
/// changes nothing. A poll calls the run finished exactly when no step is
/// left: every candidate has been dispatched, and every probe has ended.
/// So a caller that does as it is told is finished after at most three
/// steps for each candidate, and has by then probed them all.
pub proof fn lemma_progress(state: DispatcherView, ticket: usize, outcome: Outcome)
    requires
        state.wf(),
    ensures
        state.poll().1 is Send ==> state.poll().0.work_left() == state.work_left() - 1,
        !(state.poll().1 is Send) ==> state.poll().0 == state,
        state.poll().1 is Finished <==> state.work_left() == 0,
        !(state.react(ticket, outcome).1 is Ignored) ==> state.react(ticket, outcome).0.work_left()
            < state.work_left(),
        state.react(ticket, outcome).1 is Ignored ==> state.react(ticket, outcome).0 == state,
{
    state.slots.index_of_first_ensures(Slot::Free);
    lemma_slots_work_none(state.slots);
    match state.poll().1 {
        DispatchView::Send { ticket: sent, .. } => {
            lemma_slots_work_update(
                state.slots,
                sent as int,
                Slot::Classifying { candidate: state.next },
            );
        },
        _ => {},
    }
    if ticket < state.slots.len() {
        lemma_slots_work_update(
            state.slots,
            ticket as int,
            state.react(ticket, outcome).0.slots[ticket as int],
        );
    }
}

/// The requests that the probe of one candidate makes, given how its first
/// request ends: a `HEAD` request, and after it a `GET` request if the first
/// brought an accepted status and lengths are wanted.
pub open spec fn probe_requests(target: TargetView, candidate: Seq<char>, first: Outcome) -> Seq<
    RequestView,
> {
    let head = request_of(target, Method::Head, candidate);
    let get = request_of(target, Method::Get, candidate);
    match first {
        Ok(response) => if target.accepted.contains(response.status) && target.show_length {
            seq![head, get]
        } else {
            seq![head]
        },
        Err(_) => seq![head],
    }
}

/// The dispatcher makes the requests of `probe_requests` and no others. The
/// request that a poll sends is the first of them. When that request ends,
/// a second request follows exactly when there is a second, and it is that
/// one; otherwise the probe is over and its slot is free. When the second
/// request ends, the probe is over, however it ended. Under a ticket that
/// holds no probe nothing follows at all. So a candidate that is no match
/// costs one request, and a match whose length is wanted costs two.
pub proof fn lemma_request_economy(state: DispatcherView, ticket: usize, outcome: Outcome)
    requires
        state.wf(),
    ensures
        (state.poll().1 matches DispatchView::Send { request, .. } ==> request == probe_requests(
            state.target,
            state.candidates[state.next as int],
            outcome,
        )[0]),
        ticket < state.slots.len() ==> (state.slots[ticket as int] matches Slot::Classifying {
            candidate,
        } ==> {
            let requests = probe_requests(
                state.target,
                state.candidates[candidate as int],
                outcome,
            );
            match state.react(ticket, outcome).1 {
                ReactionView::FollowUp { ticket: again, request } => {
                    &&& again == ticket
                    &&& requests.len() == 2
                    &&& request == requests[1]
                    &&& state.react(ticket, outcome).0.slots[ticket as int] is Measuring
                },
                _ => {
                    &&& requests.len() == 1
                    &&& state.react(ticket, outcome).0.slots[ticket as int] is Free
                },
            }
        }),
        (ticket < state.slots.len() && state.slots[ticket as int] is Measuring ==> {
            &&& !(state.react(ticket, outcome).1 is FollowUp)
            &&& state.react(ticket, outcome).0.slots[ticket as int] is Free
        }),
        !(ticket < state.slots.len()) || state.slots[ticket as int] is Free ==> state.react(
            ticket,
            outcome,
        ).1 is Ignored,
{
    state.slots.index_of_first_ensures(Slot::Free);
}

/// How many requests a probe makes: two, `HEAD` then `GET`, where the first
/// brings an accepted status and lengths are wanted; one `HEAD` otherwise.
pub proof fn lemma_probe_requests(target: TargetView, candidate: Seq<char>, first: Outcome)
    ensures
        probe_requests(target, candidate, first)[0].method == Method::Head,
        probe_requests(target, candidate, first).len() == (if first is Ok
            && target.accepted.contains(first->Ok_0.status) && target.show_length {
            2nat
        } else {
            1nat
        }),
        probe_requests(target, candidate, first).len() == 2 ==> probe_requests(
            target,
            candidate,
            first,
        )[1].method == Method::Get,
{
}

/// One probe cannot disturb another. However the request under a ticket
/// ends, with a response or with a failure, every other slot stays as it
/// was, and so do the candidates still to be dispatched. After a failure the
/// slot is free again for the next candidate.
pub proof fn lemma_probes_are_isolated(state: DispatcherView, ticket: usize, outcome: Outcome)
    requires
        state.wf(),
    ensures
        state.react(ticket, outcome).0.next == state.next,
        state.react(ticket, outcome).0.candidates == state.candidates,
        state.react(ticket, outcome).0.target == state.target,
        state.react(ticket, outcome).0.slots.len() == state.slots.len(),
        forall|other: int|
            0 <= other < state.slots.len() && other != ticket ==> state.react(
                ticket,
                outcome,
            ).0.slots[other] == state.slots[other],
        outcome is Err && ticket < state.slots.len() ==> state.react(
            ticket,
            outcome,
        ).0.slots[ticket as int] == Slot::Free,
{
}

/// What a reported result holds. A length is reported only for a match
/// whose length was wanted, and a result counts as a match exactly when its
/// status is an accepted one.
pub proof fn lemma_reported_results(state: DispatcherView, ticket: usize, outcome: Outcome)
    requires
        state.wf(),
    ensures
        (state.react(ticket, outcome).1 matches ReactionView::Report(result) ==> {
            &&& result.matched == state.target.accepted.contains(result.status)
            &&& result.content_length is Some ==> result.matched && state.target.show_length
            &&& result.matched && state.target.show_length ==> result.content_length is Some
        }),
{
}

} // verus!
