//! The dispatcher: it takes the candidates through their probes with no more
//! than a fixed number of probes in flight.
//!
//! The dispatcher makes no request itself. It is a state machine: `poll`
//! says what to do next, the caller does it, and `react` takes in how a
//! request ended and says what follows from it. A probe in flight holds one
//! slot of a table that has as many slots as the concurrency limit allows,
//! and the slot's number is the ticket by which its requests are known.

use crate::baseline::{
    verdict_of, BaselineProbe, BaselineVerdict, BaselineVerdictView, WildcardBaseline,
};
use crate::config::{TargetConfig, TargetView};
use crate::error::{RunError, RunErrorView, TransportFailure};
use crate::request::{request_of, Method, Outcome, Request, RequestView};
use vstd::prelude::*;
use vstd::string::*;

verus! {

/// One slot of the dispatcher's table.
#[derive(Debug, Clone, Copy, PartialEq, Eq, Structural)]
pub enum Slot {
    /// No probe holds the slot.
    Free,
    /// The probe of this candidate waits for the response that classifies it.
    Classifying { candidate: usize },
    /// The probe of this candidate was a match with this status, and waits
    /// for the response that tells its length.
    Measuring { candidate: usize, status: u16 },
}

/// What a probe found out about one candidate.
#[derive(Debug, PartialEq, Eq)]
pub struct ProbeResult {
    /// The candidate, as the wordlist gave it.
    pub candidate: String,
    /// The status that the target gave to the candidate's classification
    /// request.
    pub status: u16,
    /// The length of the body, where it was asked for and the candidate was
    /// a match.
    pub content_length: Option<u64>,
    /// Whether the status is an accepted one.
    pub matched: bool,
}

/// A `ProbeResult` as a mathematical value.
pub struct ProbeResultView {
    pub candidate: Seq<char>,
    pub status: u16,
    pub content_length: Option<u64>,
    pub matched: bool,
}

impl View for ProbeResult {
    type V = ProbeResultView;

    open spec fn view(&self) -> ProbeResultView {
        ProbeResultView {
            candidate: self.candidate@,
            status: self.status,
            content_length: self.content_length,
            matched: self.matched,
        }
    }
}

impl Clone for ProbeResult {
    fn clone(&self) -> (copy: ProbeResult)
        ensures
            copy == *self,
    {
        ProbeResult {
            candidate: self.candidate.clone(),
            status: self.status,
            content_length: self.content_length,
            matched: self.matched,
        }
    }
}

/// A probe that a transport failure cut short. The candidate is skipped, and
/// the run goes on.
#[derive(Debug, PartialEq, Eq)]
pub struct ProbeFailure {
    pub candidate: String,
    pub failure: TransportFailure,
}

/// A `ProbeFailure` as a mathematical value.
pub struct ProbeFailureView {
    pub candidate: Seq<char>,
    pub failure: TransportFailure,
}

impl View for ProbeFailure {
    type V = ProbeFailureView;

    open spec fn view(&self) -> ProbeFailureView {
        ProbeFailureView { candidate: self.candidate@, failure: self.failure }
    }
}

impl Clone for ProbeFailure {
    fn clone(&self) -> (copy: ProbeFailure)
        ensures
            copy == *self,
    {
        ProbeFailure { candidate: self.candidate.clone(), failure: self.failure }
    }
}

/// What the caller of `poll` is to do next.
#[derive(Debug, PartialEq, Eq)]
pub enum Dispatch {
    /// Start this request, and hand its outcome to `react` under this
    /// ticket once it has ended. Then poll again.
    Send { ticket: usize, request: Request },
    /// Nothing can start now. Wait until one of the requests under way
    /// ends, hand its outcome to `react`, and poll again.
    Wait,
    /// Every candidate has been probed, and no request is under way.
    Finished,
}

/// A `Dispatch` as a mathematical value.
pub enum DispatchView {
    Send { ticket: usize, request: RequestView },
    Wait,
    Finished,
}

impl View for Dispatch {
    type V = DispatchView;

    open spec fn view(&self) -> DispatchView {
        match self {
            Dispatch::Send { ticket, request } => DispatchView::Send {
                ticket: *ticket,
                request: request@,
            },
            Dispatch::Wait => DispatchView::Wait,
            Dispatch::Finished => DispatchView::Finished,
        }
    }
}

/// What follows from the end of a request.
#[derive(Debug, PartialEq, Eq)]
pub enum Reaction {
    /// The candidate is a match and its length is wanted: start this second
    /// request, and hand its outcome to `react` under the same ticket.
    FollowUp { ticket: usize, request: Request },
    /// The probe is complete: this is its result, match or not.
    Report(ProbeResult),
    /// The probe failed and its candidate is skipped.
    Skip(ProbeFailure),
    /// No probe is in flight under this ticket: nothing has changed.
    Ignored,
}

/// A `Reaction` as a mathematical value.
pub enum ReactionView {
    FollowUp { ticket: usize, request: RequestView },
    Report(ProbeResultView),
    Skip(ProbeFailureView),
    Ignored,
}

impl View for Reaction {
    type V = ReactionView;

    open spec fn view(&self) -> ReactionView {
        match self {
            Reaction::FollowUp { ticket, request } => ReactionView::FollowUp {
                ticket: *ticket,
                request: request@,
            },
            Reaction::Report(result) => ReactionView::Report(result@),
            Reaction::Skip(failure) => ReactionView::Skip(failure@),
            Reaction::Ignored => ReactionView::Ignored,
        }
    }
}

/// How many of the slots hold a probe.
pub open spec fn occupied(slots: Seq<Slot>) -> nat
    decreases slots.len(),
{
    if slots.len() == 0 {
        0
    } else {
        occupied(slots.drop_last()) + if slots.last() == Slot::Free {
            0nat
        } else {
            1nat
        }
    }
}

/// The state of a dispatcher as a mathematical value.
pub struct DispatcherView {
    /// The configuration of the run.
    pub target: TargetView,
    /// The URL that the baseline request asked for.
    pub baseline_url: Seq<char>,
    /// What the baseline request showed.
    pub baseline: WildcardBaseline,
    /// The candidates, in the order of the wordlist.
    pub candidates: Seq<Seq<char>>,
    /// How many candidates have been dispatched: the candidates before this
    /// position have been, those from it on have not.
    pub next: usize,
    /// The table of probes in flight.
    pub slots: Seq<Slot>,
}

impl DispatcherView {
    /// The state before anything is dispatched.
    pub open spec fn initial(
        target: TargetView,
        baseline_url: Seq<char>,
        baseline: WildcardBaseline,
        candidates: Seq<Seq<char>>,
    ) -> DispatcherView {
        DispatcherView {
            target,
            baseline_url,
            baseline,
            candidates,
            next: 0,
            slots: Seq::new(target.concurrency as nat, |i: int| Slot::Free),
        }
    }

    /// Whether a slot may stand in the table: a probe in flight is that of a
    /// candidate already dispatched, and only a match whose length is
    /// wanted is ever measured.
    pub open spec fn admits(self, slot: Slot) -> bool {
        match slot {
            Slot::Free => true,
            Slot::Classifying { candidate } => candidate < self.next,
            Slot::Measuring { candidate, status } => {
                &&& candidate < self.next
                &&& self.target.show_length
                &&& self.target.accepted.contains(status)
            },
        }
    }

    /// What holds of every state that a dispatcher is ever in. There is a
    /// dispatcher against a wildcard target only where the run is forced.
    pub open spec fn wf(self) -> bool {
        &&& self.target.wf()
        &&& self.baseline.is_wildcard == self.target.accepted.contains(self.baseline.status)
        &&& self.baseline.is_wildcard ==> self.target.wildcard_forced
        &&& self.slots.len() == self.target.concurrency
        &&& self.next <= self.candidates.len() <= usize::MAX
        &&& forall|ticket: int|
            0 <= ticket < self.slots.len() ==> self.admits(#[trigger] self.slots[ticket])
    }

    /// How many probes are in flight. Each has exactly one request under
    /// way, so this is also the number of requests under way.
    pub open spec fn in_flight(self) -> nat {
        occupied(self.slots)
    }

    /// The state with another slot under `ticket`.
    pub open spec fn with_slot(self, ticket: int, slot: Slot) -> DispatcherView {
        DispatcherView { slots: self.slots.update(ticket, slot), ..self }
    }

    /// What a poll does: the state after it, and what it tells the caller.
    /// While candidates are left, the next of them is sent off under the
    /// first free slot, if a slot is free. Once none is left, the run waits
    /// for the probes in flight, and is finished when there are none.
    pub open spec fn poll(self) -> (DispatcherView, DispatchView) {
        if self.next < self.candidates.len() {
            match self.slots.index_of_first(Slot::Free) {
                Some(ticket) => (
                    DispatcherView {
                        next: (self.next + 1) as usize,
                        slots: self.slots.update(ticket, Slot::Classifying { candidate: self.next }),
                        ..self
                    },
                    DispatchView::Send {
                        ticket: ticket as usize,
                        request: request_of(
                            self.target,
                            Method::Head,
                            self.candidates[self.next as int],
                        ),
                    },
                ),
                None => (self, DispatchView::Wait),
            }
        } else if self.in_flight() > 0 {
            (self, DispatchView::Wait)
        } else {
            (self, DispatchView::Finished)
        }
    }

    /// What the end of a request does: the state after it, and what
    /// follows. A failure frees the slot and skips the candidate. The
    /// response to a classification request frees the slot with a result,
    /// unless the candidate is a match whose length is wanted: then the
    /// probe keeps its slot for a second request. The response to that
    /// request frees the slot with the result and the length.
    pub open spec fn react(self, ticket: usize, outcome: Outcome) -> (
        DispatcherView,
        ReactionView,
    ) {
        if ticket >= self.slots.len() {
            (self, ReactionView::Ignored)
        } else {
            let freed = self.with_slot(ticket as int, Slot::Free);
            match self.slots[ticket as int] {
                Slot::Free => (self, ReactionView::Ignored),
                Slot::Classifying { candidate } => match outcome {
                    Err(failure) => (
                        freed,
                        ReactionView::Skip(
                            ProbeFailureView {
                                candidate: self.candidates[candidate as int],
                                failure,
                            },
                        ),
                    ),
                    Ok(response) => {
                        let matched = self.target.accepted.contains(response.status);
                        if matched && self.target.show_length {
                            (
                                self.with_slot(
                                    ticket as int,
                                    Slot::Measuring { candidate, status: response.status },
                                ),
                                ReactionView::FollowUp {
                                    ticket,
                                    request: request_of(
                                        self.target,
                                        Method::Get,
                                        self.candidates[candidate as int],
                                    ),
                                },
                            )
                        } else {
                            (
                                freed,
                                ReactionView::Report(
                                    ProbeResultView {
                                        candidate: self.candidates[candidate as int],
                                        status: response.status,
                                        content_length: None,
                                        matched,
                                    },
                                ),
                            )
                        }
                    },
                },
                Slot::Measuring { candidate, status } => match outcome {
                    Err(failure) => (
                        freed,
                        ReactionView::Skip(
                            ProbeFailureView {
                                candidate: self.candidates[candidate as int],
                                failure,
                            },
                        ),
                    ),
                    Ok(response) => (
                        freed,
                        ReactionView::Report(
                            ProbeResultView {
                                candidate: self.candidates[candidate as int],
                                status,
                                content_length: Some(response.body_length),
                                matched: true,
                            },
                        ),
                    ),
                },
            }
        }
    }
}

/// Puts `slot` under `ticket`.
fn put(slots: &mut Vec<Slot>, ticket: usize, slot: Slot)
    requires
        ticket < old(slots)@.len(),
    ensures
        final(slots)@ == old(slots)@.update(ticket as int, slot),
    no_unwind
{
    slots[ticket] = slot;
}

/// How a run opens after its baseline request for `url` ended with
/// `outcome`: with the state before anything is dispatched, all the
/// candidates ahead of it, where the verdict lets the run go on, and with
/// the error of the verdict where it does not.
pub open spec fn opening(
    target: TargetView,
    url: Seq<char>,
    outcome: Outcome,
    candidates: Seq<Seq<char>>,
) -> Result<DispatcherView, RunErrorView> {
    match verdict_of(target, url, outcome) {
        BaselineVerdictView::Proceed { url, baseline } => Ok(
            DispatcherView::initial(target, url, baseline, candidates),
        ),
        BaselineVerdictView::Abort(error) => Err(error),
    }
}

/// A dispatcher: the run as a whole. It holds the configuration, what the
/// baseline check showed, the candidates, how far the run has come with
/// them, and the probes in flight.
#[derive(Debug)]
pub struct Dispatcher {
    config: TargetConfig,
    baseline_url: String,
    baseline: WildcardBaseline,
    candidates: Vec<String>,
    next: usize,
    slots: Vec<Slot>,
}

impl View for Dispatcher {
    type V = DispatcherView;

    closed spec fn view(&self) -> DispatcherView {
        DispatcherView {
            target: self.config@,
            baseline_url: self.baseline_url@,
            baseline: self.baseline,
            candidates: self.candidates.deep_view(),
            next: self.next,
            slots: self.slots@,
        }
    }
}

impl Dispatcher {
    #[verifier::type_invariant]
    spec fn valid(self) -> bool {
        self@.wf()
    }

    /// Concludes the baseline check and, if it lets the run go on, opens the
    /// dispatch of `candidates`. After a fatal verdict there is no
    /// dispatcher, and so no candidate is ever probed.
    pub fn open(
        config: TargetConfig,
        probe: BaselineProbe,
        outcome: Outcome,
        candidates: Vec<String>,
    ) -> (opened: Result<Dispatcher, RunError>)
        ensures
            (match opened {
                Ok(dispatcher) => {
                    &&& opening(config@, probe@, outcome, candidates.deep_view()) == Ok::<
                        DispatcherView,
                        RunErrorView,
                    >(dispatcher@)
                    &&& dispatcher@.wf()
                },
                Err(error) => opening(config@, probe@, outcome, candidates.deep_view()) == Err::<
                    DispatcherView,
                    RunErrorView,
                >(error@),
            }),
    {
        let (baseline_url, baseline) = match probe.assess(&config, outcome) {
            BaselineVerdict::Proceed { url, baseline } => (url, baseline),
            BaselineVerdict::Abort(error) => {
                return Err(error);
            },
        };
        let limit = config.concurrency();
        let mut slots: Vec<Slot> = Vec::new();
        while slots.len() < limit
            invariant
                slots.len() <= limit,
                forall|i: int| 0 <= i < slots.len() ==> slots@[i] == Slot::Free,
            decreases limit - slots.len(),
        {
            slots.push(Slot::Free);
        }
        assert(candidates.deep_view().len() == candidates.len());
        let dispatcher = Dispatcher { config, baseline_url, baseline, candidates, next: 0, slots };
        assert(dispatcher@.slots =~= DispatcherView::initial(
            config@,
            probe@,
            baseline,
            candidates.deep_view(),
        ).slots);
        Ok(dispatcher)
    }

    /// What the baseline request showed.
    pub fn baseline(&self) -> (baseline: WildcardBaseline)
        ensures
            baseline == self@.baseline,
    {
        self.baseline
    }

    /// The URL that the baseline request asked for.
    pub fn baseline_url(&self) -> (url: &str)
        ensures
            url@ == self@.baseline_url,
    {
        self.baseline_url.as_str()
    }

    /// The configuration of the run.
    pub fn config(&self) -> (config: &TargetConfig)
        ensures
            config@ == self@.target,
            self@.wf(),
    {
        proof {
            use_type_invariant(self);
        }
        &self.config
    }

    /// How many candidates the run has.
    pub fn total(&self) -> (total: usize)
        ensures
            total == self@.candidates.len(),
    {
        self.candidates.len()
    }

    /// How many candidates have been dispatched.
    pub fn dispatched(&self) -> (count: usize)
        ensures
            count == self@.next,
    {
        self.next
    }

    /// How many probes are in flight.
    pub fn in_flight(&self) -> (count: usize)
        ensures
            count == self@.in_flight(),
    {
        let mut count: usize = 0;
        let mut i: usize = 0;
        while i < self.slots.len()
            invariant
                i <= self.slots.len(),
                count <= i,
                count == occupied(self.slots@.take(i as int)),
            decreases self.slots.len() - i,
        {
            assert(self.slots@.take(i + 1).drop_last() =~= self.slots@.take(i as int));
            if self.slots[i] != Slot::Free {
                count += 1;
            }
            i += 1;
        }
        assert(self.slots@.take(i as int) =~= self.slots@);
        count
    }

    /// The first free slot.
    fn free_slot(&self) -> (found: Option<usize>)
        ensures
            (match found {
                Some(ticket) => {
                    &&& ticket < self.slots@.len()
                    &&& self.slots@.index_of_first(Slot::Free) == Some(ticket as int)
                },
                None => self.slots@.index_of_first(Slot::Free) is None,
            }),
    {
        let mut i: usize = 0;
        while i < self.slots.len()
            invariant
                i <= self.slots.len(),
                forall|j: int| 0 <= j < i ==> self.slots@[j] != Slot::Free,
            decreases self.slots.len() - i,
        {
            if self.slots[i] == Slot::Free {
                proof {
                    self.slots@.index_of_first_ensures(Slot::Free);
                }
                return Some(i);
            }
            i += 1;
        }
        proof {
            self.slots@.index_of_first_ensures(Slot::Free);
        }
        None
    }

    /// Says what to do next, and takes note of it.
    pub fn poll(&mut self) -> (action: Dispatch)
        ensures
            final(self)@ == old(self)@.poll().0,
            action@ == old(self)@.poll().1,
            old(self)@.wf(),
            final(self)@.wf(),
    {
        proof {
            use_type_invariant(&*self);
            lemma_poll_keeps_wf(self@);
        }
        if self.next < self.candidates.len() {
            match self.free_slot() {
                Some(ticket) => {
                    let candidate = self.next;
                    let request = Request::new(
                        &self.config,
                        Method::Head,
                        self.candidates[candidate].as_str(),
                    );
                    self.next = candidate + 1;
                    put(&mut self.slots, ticket, Slot::Classifying { candidate });
                    Dispatch::Send { ticket, request }
                },
                None => Dispatch::Wait,
            }
        } else if self.in_flight() > 0 {
            Dispatch::Wait
        } else {
            Dispatch::Finished
        }
    }

    /// Takes in how the request under `ticket` ended, and says what follows.
    pub fn react(&mut self, ticket: usize, outcome: Outcome) -> (reaction: Reaction)
        ensures
            final(self)@ == old(self)@.react(ticket, outcome).0,
            reaction@ == old(self)@.react(ticket, outcome).1,
            old(self)@.wf(),
            final(self)@.wf(),
    {
        proof {
            use_type_invariant(&*self);
            lemma_react_keeps_wf(self@, ticket, outcome);
        }
        if ticket >= self.slots.len() {
            return Reaction::Ignored;
        }
        match self.slots[ticket] {
            Slot::Free => Reaction::Ignored,
            Slot::Classifying { candidate } => match outcome {
                Err(failure) => {
                    put(&mut self.slots, ticket, Slot::Free);
                    Reaction::Skip(
                        ProbeFailure { candidate: self.candidates[candidate].clone(), failure },
                    )
                },
                Ok(response) => {
                    let matched = self.config.matches(response.status);
                    if matched && self.config.show_length() {
                        let request = Request::new(
                            &self.config,
                            Method::Get,
                            self.candidates[candidate].as_str(),
                        );
                        put(
                            &mut self.slots,
                            ticket,
                            Slot::Measuring { candidate, status: response.status },
                        );
                        Reaction::FollowUp { ticket, request }
                    } else {
                        put(&mut self.slots, ticket, Slot::Free);
                        Reaction::Report(
                            ProbeResult {
                                candidate: self.candidates[candidate].clone(),
                                status: response.status,
                                content_length: None,
                                matched,
                            },
                        )
                    }
                },
            },
            Slot::Measuring { candidate, status } => {
                put(&mut self.slots, ticket, Slot::Free);
                match outcome {
                    Err(failure) => Reaction::Skip(
                        ProbeFailure { candidate: self.candidates[candidate].clone(), failure },
                    ),
                    Ok(response) => Reaction::Report(
                        ProbeResult {
                            candidate: self.candidates[candidate].clone(),
                            status,
                            content_length: Some(response.body_length),
                            matched: true,
                        },
                    ),
                }
            },
        }
    }
}

/// A poll leaves a well-formed state well formed.
pub proof fn lemma_poll_keeps_wf(state: DispatcherView)
    requires
        state.wf(),
    ensures
        state.poll().0.wf(),
{
    state.slots.index_of_first_ensures(Slot::Free);
}

/// The end of a request leaves a well-formed state well formed, whatever the
/// ticket and however the request ended.
pub proof fn lemma_react_keeps_wf(state: DispatcherView, ticket: usize, outcome: Outcome)
    requires
        state.wf(),
    ensures
        state.react(ticket, outcome).0.wf(),
{
}

} // verus!
