//! The decisions of a driver that takes one prompt through its effects.

use vstd::prelude::*;

use crate::adapters::{delta_failure, next_delta, next_sequence};
use crate::column::Entity;
use crate::correlate::{
    correlate_calls, correlated_upto, provider_step, provider_step_of, route_effect, routed,
    tool_events, tool_events_of, EffectRoute, EffectRouteView, ProviderStep, ProviderStepView,
};
use crate::drive::{
    after_item, after_reading, details_of, drive_failure, prompt_outcome, received, send_failure,
    sent, waiting, StreamProgress, StreamProgressView,
};
use crate::effect::{
    CanonicalError, CanonicalErrorView, EffectCompletion, EffectCompletionView, EffectDeltaView,
    EffectIngressView, EffectOutput, EffectOutputView, EffectRequest, EffectRequestView,
    ModelEffectInput, ModelEffectInputView, ModelToolCall, StoreEffectInput, StoreEffectInputView,
    ToolEffectInput, ToolEffectInputView, TranscriptEntry, TranscriptEntryView, Usage,
};
use crate::error_text::{effect_error_text, local_error_text};
use crate::executor::{CorrelatedCall, CorrelatedCallView, ExecutorKey, ExecutorKeyView};
use crate::handle::{
    ingress_refusal, EffectIo, EffectIoView, RunStream, RunStreamView, RuntimeHandleView,
};
use crate::message::{DecodedEntry, DecodedEntryView, ToolCall, ToolCallView};
use crate::report::{
    LocalAgentError, LocalAgentErrorView, LocalStreamEvent, LocalStreamEventView,
    StreamedAssistantContent, StreamedAssistantContentView,
};
use crate::run::{EffectIoError, PendingRunHandle, PendingRunHandleView};
use crate::runtime::Runtime;
use crate::schedule::{
    driven, first_stall, law_drive_is_bounded, lemma_passes_drain_ingress, PassReasons,
    ScheduleView,
};

verus! {

/// A tool call that is to be executed.
#[derive(Debug)]
pub struct ToolRequest {
    /// Operation identity.
    pub operation: Entity,
    /// Operation generation.
    pub generation: u64,
    /// Input of the call.
    pub input: ToolEffectInput,
}

/// What a [`ToolRequest`] holds.
#[verifier::ext_equal]
pub struct ToolRequestView {
    pub operation: Entity,
    pub generation: u64,
    pub input: ToolEffectInputView,
}

impl View for ToolRequest {
    type V = ToolRequestView;

    open spec fn view(&self) -> ToolRequestView {
        ToolRequestView {
            operation: self.operation,
            generation: self.generation,
            input: self.input@,
        }
    }
}

impl DeepView for ToolRequest {
    type V = ToolRequestView;

    open spec fn deep_view(&self) -> ToolRequestView {
        self.view()
    }
}

/// Effects of one round: those that were not looked at, and the tool calls that wait for them.
#[derive(Debug)]
pub struct Round {
    /// Effects that were not looked at.
    pub requests: Vec<EffectRequest>,
    /// Tool calls that wait.
    pub batch: Vec<ToolRequest>,
}

/// What a [`Round`] holds.
#[verifier::ext_equal]
pub struct RoundView {
    pub requests: Seq<EffectRequestView>,
    pub batch: Seq<ToolRequestView>,
}

impl View for Round {
    type V = RoundView;

    open spec fn view(&self) -> RoundView {
        RoundView { requests: self.requests.deep_view(), batch: self.batch.deep_view() }
    }
}

/// What a driver is to do next.
#[derive(Debug)]
#[allow(inconsistent_fields)]
pub enum RoundStep {
    /// To ask the model.
    Model {
        /// Operation identity.
        operation: Entity,
        /// Operation generation.
        generation: u64,
        /// Input of the model.
        input: ModelEffectInput,
    },
    /// To execute a store operation.
    Store {
        /// Operation identity.
        operation: Entity,
        /// Operation generation.
        generation: u64,
        /// Input of the store.
        input: StoreEffectInput,
        /// Position of its executor.
        position: usize,
    },
    /// To execute the tool calls of the round, which ends with them.
    Tools(Vec<ToolRequest>),
}

/// What a [`RoundStep`] holds.
#[verifier::ext_equal]
#[allow(inconsistent_fields)]
pub enum RoundStepView {
    Model { operation: Entity, generation: u64, input: ModelEffectInputView },
    Store { operation: Entity, generation: u64, input: StoreEffectInputView, position: int },
    Tools(Seq<ToolRequestView>),
}

impl View for RoundStep {
    type V = RoundStepView;

    open spec fn view(&self) -> RoundStepView {
        match self {
            RoundStep::Model { operation, generation, input } => RoundStepView::Model {
                operation: *operation,
                generation: *generation,
                input: input@,
            },
            RoundStep::Store { operation, generation, input, position } => RoundStepView::Store {
                operation: *operation,
                generation: *generation,
                input: input@,
                position: *position as int,
            },
            RoundStep::Tools(batch) => RoundStepView::Tools(batch.deep_view()),
        }
    }
}

/// A runtime and a round after a decision, with the decision.
#[verifier::ext_equal]
pub struct DecidedView {
    pub schedule: ScheduleView,
    pub round: RoundView,
    pub step: Result<RoundStepView, LocalAgentErrorView>,
}

/// The message that an operation has failed.
pub open spec fn failed_completion(request: EffectRequestView, error: CanonicalErrorView) -> EffectIngressView {
    EffectIngressView::Completion(
        EffectCompletionView {
            operation: request.operation,
            generation: request.generation,
            result: Err(error),
        },
    )
}

/// Reasons for which schemas are refused, by the message before which the runtime is driven.
pub type DriveReasons = Seq<PassReasons>;

/// What a driver is to do next in a round. Effects are looked at in order. Tool calls wait until
/// no other effect is left. An effect without an executor is answered with its error at once.
pub open spec fn decided(
    s: ScheduleView,
    limit: usize,
    round: RoundView,
    stores: Seq<ExecutorKeyView>,
    reasons: DriveReasons,
) -> DecidedView
    decreases round.requests.len(),
{
    if round.requests.len() == 0 {
        DecidedView {
            schedule: s,
            round: RoundView { requests: Seq::empty(), batch: Seq::empty() },
            step: Ok(RoundStepView::Tools(round.batch)),
        }
    } else {
        let request = round.requests[0];
        let operation = request.operation;
        let generation = request.generation;
        let rest = RoundView { requests: round.requests.drop_first(), batch: round.batch };
        match routed(request.input, stores) {
            EffectRouteView::Model(input) => DecidedView {
                schedule: s,
                round: rest,
                step: Ok(RoundStepView::Model { operation, generation, input }),
            },
            EffectRouteView::Store(input, position) => DecidedView {
                schedule: s,
                round: rest,
                step: Ok(RoundStepView::Store { operation, generation, input, position }),
            },
            EffectRouteView::Tool(input) => decided(
                s,
                limit,
                RoundView {
                    requests: rest.requests,
                    batch: rest.batch.push(ToolRequestView { operation, generation, input }),
                },
                stores,
                reasons.drop_first(),
            ),
            EffectRouteView::Failed(error) => {
                let t = sent(s, limit, failed_completion(request, error), reasons[0]);
                match send_failure(s, limit, reasons[0]) {
                    Some(failure) => DecidedView { schedule: t, round: rest, step: Err(failure) },
                    None => decided(t, limit, rest, stores, reasons.drop_first()),
                }
            },
        }
    }
}

/// A runtime after completions were submitted in order, up to the first that did not get through,
/// and why that one did not.
pub open spec fn settled(
    s: ScheduleView,
    limit: usize,
    completions: Seq<EffectCompletionView>,
    reasons: DriveReasons,
) -> (ScheduleView, Option<LocalAgentErrorView>)
    decreases completions.len(),
{
    if completions.len() == 0 {
        (s, None)
    } else {
        let t = sent(s, limit, EffectIngressView::Completion(completions[0]), reasons[0]);
        match send_failure(s, limit, reasons[0]) {
            Some(failure) => (t, Some(failure)),
            None => settled(t, limit, completions.drop_first(), reasons.drop_first()),
        }
    }
}

/// Sending keeps the size of the queue.
proof fn lemma_sending_keeps_capacity(
    s: ScheduleView,
    limit: usize,
    message: EffectIngressView,
    reasons: PassReasons,
)
    requires
        limit > 0,
    ensures
        sent(s, limit, message, reasons).effects.ingress.capacity == s.effects.ingress.capacity,
{
    law_drive_is_bounded(s, limit as nat, reasons);
    match first_stall(s, limit as nat, 1, reasons) {
        Some(n) => lemma_passes_drain_ingress(s, n, reasons),
        None => lemma_passes_drain_ingress(s, limit as nat, reasons),
    }
}

/// Reasons that go on with more.
proof fn lemma_reasons_go_on(done: DriveReasons, next: PassReasons, more: DriveReasons)
    ensures
        done.push(next) + more == done + (seq![next] + more),
        (seq![next] + more)[0] == next,
        (seq![next] + more).drop_first() == more,
{
    assert(done.push(next) + more =~= done + (seq![next] + more));
    assert((seq![next] + more).drop_first() =~= more);
}

impl Round {
    /// Drives immediate work and begins a round with the effects that it asks for.
    pub fn begin(runtime: &mut Runtime) -> (r: Result<Self, LocalAgentError>)
        ensures
            final(runtime).progress_limit == old(runtime).progress_limit,
            exists|reasons: PassReasons|
                {
                    let t = #[trigger] driven(
                        old(runtime)@,
                        old(runtime).progress_limit as nat,
                        reasons,
                    );
                    let u = ScheduleView {
                        effects: EffectIoView {
                            requests: t.effects.requests.drained(),
                            ..t.effects
                        },
                        ..t
                    };
                    if first_stall(
                        old(runtime)@,
                        old(runtime).progress_limit as nat,
                        1,
                        reasons,
                    ) is None {
                        &&& r is Err
                        &&& r->Err_0@ == drive_failure(old(runtime).progress_limit)
                        &&& final(runtime)@ == t
                    } else {
                        &&& final(runtime)@ == u
                        &&& match r {
                            Ok(round) => t.effects.requests.sending && round@ == (RoundView {
                                requests: t.effects.requests.items,
                                batch: Seq::empty(),
                            }),
                            Err(error) => !t.effects.requests.sending && error@
                                == LocalAgentErrorView::Effect(EffectIoError::Disconnected),
                        }
                    }
                },
    {
        match runtime.drive_and_take_effects() {
            Ok(requests) => {
                let batch: Vec<ToolRequest> = Vec::new();
                assert(batch.deep_view() =~= Seq::empty());
                Ok(Round { requests, batch })
            },
            Err(error) => Err(error),
        }
    }

    /// Decides what is to be done next.
    pub fn next(&mut self, runtime: &mut Runtime, stores: &Vec<ExecutorKey>) -> (r: Result<
        RoundStep,
        LocalAgentError,
    >)
        requires
            old(runtime).has_room(),
        ensures
            exists|reasons: DriveReasons|
                {
                    let d = #[trigger] decided(
                        old(runtime)@,
                        old(runtime).progress_limit,
                        old(self)@,
                        stores.deep_view(),
                        reasons,
                    );
                    &&& final(runtime)@ == d.schedule
                    &&& final(self)@ == d.round
                    &&& match r {
                        Ok(step) => d.step == Ok::<RoundStepView, LocalAgentErrorView>(step@),
                        Err(error) => d.step == Err::<RoundStepView, LocalAgentErrorView>(error@),
                    }
                },
            final(runtime).progress_limit == old(runtime).progress_limit,
            final(runtime).has_room(),
    {
        let ghost limit = runtime.progress_limit;
        let ghost keys = stores.deep_view();
        let ghost start = runtime@;
        let ghost all = self@;
        let ghost mut done: DriveReasons = Seq::empty();
        assert forall|more: DriveReasons| #[trigger]
            decided(start, limit, all, keys, done + more) == decided(
            runtime@,
            limit,
            self@,
            keys,
            more,
        ) by {
            assert(done + more =~= more);
        }
        while self.requests.len() > 0
            invariant
                runtime.has_room(),
                runtime.progress_limit == limit,
                limit == old(runtime).progress_limit,
                keys == stores.deep_view(),
                start == old(runtime)@,
                all == old(self)@,
                forall|more: DriveReasons| #[trigger]
                    decided(start, limit, all, keys, done + more) == decided(
                        runtime@,
                        limit,
                        self@,
                        keys,
                        more,
                    ),
            decreases self.requests@.len(),
        {
            let ghost before = self@;
            let ghost s = runtime@;
            let ghost none: DriveReasons = Seq::empty();
            let request = self.requests.remove(0);
            let ghost view = request@;
            proof {
                assert(before.requests[0] == view);
                assert(self.requests.deep_view() =~= before.requests.drop_first());
                assert(decided(start, limit, all, keys, done + none) == decided(
                    s,
                    limit,
                    before,
                    keys,
                    none,
                ));
            }
            let operation = request.operation;
            let generation: u64 = request.generation;
            match route_effect(request.input, stores) {
                EffectRoute::Model(input) => {
                    return Ok(RoundStep::Model { operation, generation, input });
                },
                EffectRoute::Store(input, position) => {
                    return Ok(RoundStep::Store { operation, generation, input, position });
                },
                EffectRoute::Tool(input) => {
                    let waiting = ToolRequest { operation, generation, input };
                    let ghost added = waiting@;
                    self.batch.push(waiting);
                    proof {
                        assert(self.batch.deep_view() =~= before.batch.push(added));
                        let unused: PassReasons = Seq::empty();
                        let known = done;
                        done = known.push(unused);
                        assert forall|more: DriveReasons| #[trigger]
                            decided(start, limit, all, keys, done + more) == decided(
                            runtime@,
                            limit,
                            self@,
                            keys,
                            more,
                        ) by {
                            lemma_reasons_go_on(known, unused, more);
                            let long = seq![unused] + more;
                            assert(decided(start, limit, all, keys, known + long) == decided(
                                s,
                                limit,
                                before,
                                keys,
                                long,
                            ));
                        }
                    }
                },
                EffectRoute::Failed(error) => {
                    let ghost reason = error@;
                    let completion = EffectCompletion { operation, generation, result: Err(error) };
                    let ghost message = failed_completion(view, reason);
                    assert(EffectIngressView::Completion(completion@) == message);
                    let submitted = runtime.submit_completion(completion);
                    let ghost drive = choose|drive: PassReasons|
                        {
                            &&& runtime@ == #[trigger] sent(s, limit, message, drive)
                            &&& match submitted {
                                Ok(_) => send_failure(s, limit, drive) is None,
                                Err(error) => send_failure(s, limit, drive) == Some(error@),
                            }
                        };
                    proof {
                        lemma_sending_keeps_capacity(s, limit, message, drive);
                        lemma_reasons_go_on(done, drive, none);
                        let long = seq![drive] + none;
                        assert(decided(start, limit, all, keys, done + long) == decided(
                            s,
                            limit,
                            before,
                            keys,
                            long,
                        ));
                    }
                    if let Err(failure) = submitted {
                        return Err(failure);
                    }
                    proof {
                        let known = done;
                        done = known.push(drive);
                        assert forall|more: DriveReasons| #[trigger]
                            decided(start, limit, all, keys, done + more) == decided(
                            runtime@,
                            limit,
                            self@,
                            keys,
                            more,
                        ) by {
                            lemma_reasons_go_on(known, drive, more);
                            let long = seq![drive] + more;
                            assert(decided(start, limit, all, keys, known + long) == decided(
                                s,
                                limit,
                                before,
                                keys,
                                long,
                            ));
                        }
                    }
                },
            }
        }
        proof {
            let none: DriveReasons = Seq::empty();
            assert(self.requests.deep_view() =~= Seq::empty());
            assert(decided(start, limit, all, keys, done + none) == decided(
                runtime@,
                limit,
                self@,
                keys,
                none,
            ));
        }
        let mut batch: Vec<ToolRequest> = Vec::new();
        assert(batch.deep_view() =~= Seq::empty());
        std::mem::swap(&mut batch, &mut self.batch);
        Ok(RoundStep::Tools(batch))
    }
}

/// Submits completions in order, up to the first that does not get through.
pub fn settle_batch(runtime: &mut Runtime, completions: Vec<EffectCompletion>) -> (r: Result<
    (),
    LocalAgentError,
>)
    requires
        old(runtime).has_room(),
    ensures
        exists|reasons: DriveReasons|
            {
                let s = #[trigger] settled(
                    old(runtime)@,
                    old(runtime).progress_limit,
                    completions.deep_view(),
                    reasons,
                );
                &&& final(runtime)@ == s.0
                &&& match r {
                    Ok(_) => s.1 is None,
                    Err(error) => s.1 == Some(error@),
                }
            },
        final(runtime).progress_limit == old(runtime).progress_limit,
        final(runtime).has_room(),
{
    let mut rest = completions;
    let ghost limit = runtime.progress_limit;
    let ghost start = runtime@;
    let ghost all = rest.deep_view();
    let ghost mut done: DriveReasons = Seq::empty();
    assert forall|more: DriveReasons| #[trigger]
        settled(start, limit, all, done + more) == settled(
        runtime@,
        limit,
        rest.deep_view(),
        more,
    ) by {
        assert(done + more =~= more);
    }
    while rest.len() > 0
        invariant
            runtime.has_room(),
            runtime.progress_limit == limit,
            limit == old(runtime).progress_limit,
            start == old(runtime)@,
            all == completions.deep_view(),
            forall|more: DriveReasons| #[trigger]
                settled(start, limit, all, done + more) == settled(
                    runtime@,
                    limit,
                    rest.deep_view(),
                    more,
                ),
        decreases rest@.len(),
    {
        let ghost before = rest.deep_view();
        let ghost s = runtime@;
        let completion = rest.remove(0);
        let ghost message = EffectIngressView::Completion(completion@);
        proof {
            assert(before[0] == completion@);
            assert(rest.deep_view() =~= before.drop_first());
        }
        let submitted = runtime.submit_completion(completion);
        let ghost drive = choose|drive: PassReasons|
            {
                &&& runtime@ == #[trigger] sent(s, limit, message, drive)
                &&& match submitted {
                    Ok(_) => send_failure(s, limit, drive) is None,
                    Err(error) => send_failure(s, limit, drive) == Some(error@),
                }
            };
        proof {
            let none: DriveReasons = Seq::empty();
            lemma_sending_keeps_capacity(s, limit, message, drive);
            lemma_reasons_go_on(done, drive, none);
            let long = seq![drive] + none;
            assert(settled(start, limit, all, done + long) == settled(s, limit, before, long));
        }
        if let Err(error) = submitted {
            return Err(error);
        }
        proof {
            let known = done;
            done = known.push(drive);
            assert forall|more: DriveReasons| #[trigger]
                settled(start, limit, all, done + more) == settled(
                runtime@,
                limit,
                rest.deep_view(),
                more,
            ) by {
                lemma_reasons_go_on(known, drive, more);
                let long = seq![drive] + more;
                assert(settled(start, limit, all, known + long) == settled(s, limit, before, long));
            }
        }
    }
    proof {
        let none: DriveReasons = Seq::empty();
        assert(settled(start, limit, all, done + none) == settled(
            runtime@,
            limit,
            rest.deep_view(),
            none,
        ));
    }
    Ok(())
}

/// The streamed answer to one model operation.
#[derive(Debug)]
pub struct ModelStream {
    /// Operation identity.
    pub operation: Entity,
    /// Operation generation.
    pub generation: u64,
    /// Number of the next delta.
    pub sequence: u64,
    /// Complete tool calls that were observed, with their internal ids.
    pub observed: Vec<(ToolCall, String)>,
}

/// What a [`ModelStream`] holds.
#[verifier::ext_equal]
pub struct ModelStreamView {
    pub operation: Entity,
    pub generation: u64,
    pub sequence: u64,
    pub observed: Seq<(ToolCallView, Seq<char>)>,
}

impl View for ModelStream {
    type V = ModelStreamView;

    open spec fn view(&self) -> ModelStreamView {
        ModelStreamView {
            operation: self.operation,
            generation: self.generation,
            sequence: self.sequence,
            observed: self.observed.deep_view(),
        }
    }
}

/// How far a streamed answer has come.
#[derive(Debug)]
pub enum FeedProgress {
    /// More may come.
    Open,
    /// The run has completed.
    Finished,
    /// The run, its stream or its runtime has failed.
    Failed(LocalAgentError),
    /// The operation has failed.
    Broken(CanonicalError),
}

/// What a [`FeedProgress`] holds.
#[verifier::ext_equal]
pub enum FeedProgressView {
    Open,
    Finished,
    Failed(LocalAgentErrorView),
    Broken(CanonicalErrorView),
}

impl View for FeedProgress {
    type V = FeedProgressView;

    open spec fn view(&self) -> FeedProgressView {
        match self {
            FeedProgress::Open => FeedProgressView::Open,
            FeedProgress::Finished => FeedProgressView::Finished,
            FeedProgress::Failed(error) => FeedProgressView::Failed(error@),
            FeedProgress::Broken(error) => FeedProgressView::Broken(error@),
        }
    }
}

/// A runtime, the stream of a run and a streamed answer after an item, and what is to be reported.
#[verifier::ext_equal]
pub struct FedView {
    pub schedule: ScheduleView,
    pub stream: RunStreamView,
    pub model: ModelStreamView,
    pub events: Seq<LocalStreamEventView>,
    pub progress: FeedProgressView,
}

/// What reading a stream means for a streamed answer.
pub open spec fn feed_progress(progress: StreamProgressView) -> FeedProgressView {
    match progress {
        StreamProgressView::Open => FeedProgressView::Open,
        StreamProgressView::Finished => FeedProgressView::Finished,
        StreamProgressView::Failed(error) => FeedProgressView::Failed(error),
    }
}

/// What an item of a streamed answer leads to. A piece of text is submitted as the next delta,
/// the runtime is driven, and what the stream of the run then holds is reported. A tool call is
/// kept, and anything else is reported at once.
pub open spec fn fed(
    s: ScheduleView,
    limit: usize,
    stream: RunStreamView,
    pending: PendingRunHandleView,
    model: ModelStreamView,
    item: StreamedAssistantContentView,
    told: PassReasons,
    seen: PassReasons,
) -> FedView {
    let same = FedView {
        schedule: s,
        stream,
        model,
        events: Seq::empty(),
        progress: FeedProgressView::Open,
    };
    match provider_step_of(item) {
        ProviderStepView::Nothing => same,
        ProviderStepView::Event(event) => FedView { events: seq![event], ..same },
        ProviderStepView::Observed(call, id) => FedView {
            model: ModelStreamView { observed: model.observed.push((call, id)), ..model },
            ..same
        },
        ProviderStepView::Delta(text) => {
            let delta = EffectDeltaView {
                operation: model.operation,
                generation: model.generation,
                sequence: model.sequence,
                text,
            };
            let after = sent(s, limit, EffectIngressView::Delta(delta), told);
            let counted = FedView {
                schedule: after,
                model: ModelStreamView { sequence: next_sequence(model.sequence), ..model },
                ..same
            };
            match send_failure(s, limit, told) {
                Some(failure) => FedView {
                    progress: FeedProgressView::Broken(
                        CanonicalErrorView::Provider {
                            message: "stream delta ingress failed: "@ + local_error_text(failure),
                            retryable: true,
                        },
                    ),
                    ..counted
                },
                None => {
                    let t = driven(after, limit as nat, seen);
                    if first_stall(after, limit as nat, 1, seen) is None {
                        FedView {
                            schedule: t,
                            progress: FeedProgressView::Failed(drive_failure(limit)),
                            ..counted
                        }
                    } else {
                        let read = received(t.handle, stream, Seq::empty(), details_of(t, pending));
                        FedView {
                            schedule: ScheduleView { handle: read.handle, ..t },
                            stream: read.stream,
                            events: read.events,
                            progress: feed_progress(read.progress),
                            ..counted
                        }
                    }
                },
            }
        },
    }
}

/// Reports of the tool calls of an answer.
pub open spec fn call_events(calls: Seq<CorrelatedCallView>) -> Seq<LocalStreamEventView> {
    Seq::new(
        calls.len(),
        |i: int|
            LocalStreamEventView::ToolCall {
                tool_call: calls[i].tool_call,
                internal_call_id: calls[i].internal_call_id,
            },
    )
}

impl ModelStream {
    /// A streamed answer that has not begun.
    pub fn new(operation: Entity, generation: u64) -> (r: Self)
        ensures
            r@ == (ModelStreamView { operation, generation, sequence: 0, observed: Seq::empty() }),
    {
        let observed: Vec<(ToolCall, String)> = Vec::new();
        assert(observed.deep_view() =~= Seq::empty());
        ModelStream { operation, generation, sequence: 0, observed }
    }

    /// Takes in an item of the answer.
    pub fn feed(
        &mut self,
        runtime: &mut Runtime,
        stream: &mut RunStream,
        pending: &PendingRunHandle,
        item: StreamedAssistantContent,
    ) -> (r: (Vec<LocalStreamEvent>, FeedProgress))
        requires
            old(runtime).has_room(),
        ensures
            exists|told: PassReasons, seen: PassReasons|
                {
                    let f = #[trigger] fed(
                        old(runtime)@,
                        old(runtime).progress_limit,
                        old(stream)@,
                        pending@,
                        old(self)@,
                        item@,
                        told,
                        seen,
                    );
                    &&& final(runtime)@ == f.schedule
                    &&& final(stream)@ == f.stream
                    &&& final(self)@ == f.model
                    &&& r.0.deep_view() == f.events
                    &&& r.1@ == f.progress
                },
            final(runtime).progress_limit == old(runtime).progress_limit,
    {
        let ghost s = runtime@;
        let ghost limit = runtime.progress_limit;
        let ghost from = stream@;
        let ghost model = self@;
        let ghost given = item@;
        let ghost mut told: PassReasons = Seq::empty();
        let ghost mut seen: PassReasons = Seq::empty();
        let mut events: Vec<LocalStreamEvent> = Vec::new();
        assert(events.deep_view() =~= Seq::empty());
        let r = match provider_step(item) {
            ProviderStep::Nothing => (events, FeedProgress::Open),
            ProviderStep::Event(event) => {
                let ghost view = event@;
                events.push(event);
                assert(events.deep_view() =~= seq![view]);
                (events, FeedProgress::Open)
            },
            ProviderStep::Observed(call, id) => {
                let ghost before = self.observed.deep_view();
                let ghost pair = (call@, id@);
                self.observed.push((call, id));
                assert(self.observed.deep_view() =~= before.push(pair));
                (events, FeedProgress::Open)
            },
            ProviderStep::Delta(text) => {
                let delta = next_delta(self.operation, self.generation, &mut self.sequence, text);
                let ghost message = EffectIngressView::Delta(delta@);
                let submitted = runtime.submit_delta(delta);
                proof {
                    told = choose|told: PassReasons|
                        {
                            &&& runtime@ == #[trigger] sent(s, limit, message, told)
                            &&& match submitted {
                                Ok(_) => send_failure(s, limit, told) is None,
                                Err(error) => send_failure(s, limit, told) == Some(error@),
                            }
                        };
                }
                match submitted {
                    Err(error) => {
                        let reason = error.text();
                        (events, FeedProgress::Broken(delta_failure(reason.as_str())))
                    },
                    Ok(_) => {
                        let ghost after = runtime@;
                        let driving = runtime.drive_once();
                        proof {
                            seen = choose|seen: PassReasons|
                                {
                                    &&& runtime@ == #[trigger] driven(after, limit as nat, seen)
                                    &&& match first_stall(after, limit as nat, 1, seen) {
                                        Some(_) => driving is Ok,
                                        None => driving is Err && driving->Err_0@
                                            == drive_failure(limit),
                                    }
                                };
                        }
                        match driving {
                            Err(error) => (events, FeedProgress::Failed(error)),
                            Ok(_) => {
                                let (read, progress) = runtime.receive_events(stream, pending);
                                let progress = match progress {
                                    StreamProgress::Open => FeedProgress::Open,
                                    StreamProgress::Finished => FeedProgress::Finished,
                                    StreamProgress::Failed(error) => FeedProgress::Failed(error),
                                };
                                (read, progress)
                            },
                        }
                    },
                }
            },
        };
        proof {
            let f = fed(s, limit, from, pending@, model, given, told, seen);
            assert(runtime@ == f.schedule);
            assert(stream@ == f.stream);
            assert(self@ == f.model);
            assert(r.0.deep_view() == f.events);
            assert(r.1@ == f.progress);
        }
        r
    }

    /// Correlates the tool calls of the answer once it has ended, and reports them.
    pub fn finish(&self, calls: &Vec<ModelToolCall>) -> (r: (
        Vec<CorrelatedCall>,
        Vec<LocalStreamEvent>,
    ))
        requires
            2 * calls@.len() < usize::MAX,
        ensures
            r.0.deep_view() == correlated_upto(
                calls.deep_view(),
                self@.observed,
                calls@.len() as int,
            ),
            r.1.deep_view() == call_events(r.0.deep_view()),
    {
        let correlated = correlate_calls(calls, &self.observed);
        let ghost all = correlated.deep_view();
        let mut events: Vec<LocalStreamEvent> = Vec::new();
        let mut i: usize = 0;
        assert(events.deep_view() =~= call_events(all).take(0));
        while i < correlated.len()
            invariant
                i <= correlated@.len(),
                all == correlated.deep_view(),
                events.deep_view() == call_events(all).take(i as int),
            decreases correlated@.len() - i,
        {
            let ghost before = events.deep_view();
            assert(all[i as int] == correlated@[i as int]@);
            let call = correlated[i].clone();
            let event = LocalStreamEvent::ToolCall {
                tool_call: call.tool_call,
                internal_call_id: call.internal_call_id,
            };
            let ghost view = event@;
            events.push(event);
            proof {
                assert(events.deep_view() =~= before.push(view));
                assert(view == call_events(all)[i as int]);
                assert(call_events(all).take(i + 1) =~= call_events(all).take(i as int).push(view));
            }
            i = i + 1;
        }
        assert(call_events(all).take(i as int) =~= call_events(all));
        (correlated, events)
    }
}

/// Reports of the first executed tool calls, from what decoding their outputs gave. A call that
/// failed is not reported.
pub open spec fn committed_events(
    calls: Seq<CorrelatedCallView>,
    completions: Seq<EffectCompletionView>,
    decoded: Seq<DecodedEntryView>,
    n: int,
) -> Seq<LocalStreamEventView>
    decreases n,
{
    if n <= 0 {
        Seq::empty()
    } else {
        let before = committed_events(calls, completions, decoded, n - 1);
        match completions[n - 1].result {
            Ok(EffectOutputView::Tool(output)) => before + tool_events_of(
                calls,
                output,
                decoded[n - 1],
            ),
            _ => before,
        }
    }
}

/// Reports of executed tool calls, to be given once the batch has been taken in.
pub fn batch_events(
    calls: &Vec<CorrelatedCall>,
    completions: &Vec<EffectCompletion>,
    decoded: &Vec<DecodedEntry>,
) -> (r: Vec<LocalStreamEvent>)
    requires
        decoded@.len() == completions@.len(),
    ensures
        r.deep_view() == committed_events(
            calls.deep_view(),
            completions.deep_view(),
            decoded.deep_view(),
            completions@.len() as int,
        ),
{
    let ghost known = calls.deep_view();
    let ghost all = completions.deep_view();
    let ghost parts = decoded.deep_view();
    let mut events: Vec<LocalStreamEvent> = Vec::new();
    assert(events.deep_view() =~= Seq::empty());
    let mut i: usize = 0;
    while i < completions.len()
        invariant
            i <= completions@.len(),
            decoded@.len() == completions@.len(),
            known == calls.deep_view(),
            all == completions.deep_view(),
            parts == decoded.deep_view(),
            events.deep_view() == committed_events(known, all, parts, i as int),
        decreases completions@.len() - i,
    {
        assert(all[i as int] == completions@[i as int]@);
        assert(parts[i as int] == decoded@[i as int]@);
        if let Ok(EffectOutput::Tool(output)) = &completions[i].result {
            let ghost before = events.deep_view();
            let mut more = tool_events(calls, output, &decoded[i]);
            let ghost added = more.deep_view();
            events.append(&mut more);
            assert(events.deep_view() =~= before + added);
        }
        i = i + 1;
    }
    events
}

/// A runtime and the stream of a run after a round, what is to be reported, and how far the run
/// has come.
#[verifier::ext_equal]
pub struct ConcludedView {
    pub schedule: ScheduleView,
    pub stream: RunStreamView,
    pub events: Seq<LocalStreamEventView>,
    pub progress: StreamProgressView,
}

/// Whether a transcript was extended by the results of a batch.
pub open spec fn results_committed(
    before: Seq<TranscriptEntryView>,
    after: Seq<TranscriptEntryView>,
) -> bool {
    before.len() < after.len() && after[before.len() as int] is ToolResult
}

/// How a round of a streamed run ends: the runtime is driven, then the executed tool calls and
/// what the stream holds are reported, and a run whose stream is silent is asked for its outcome.
/// The tool calls are reported only where the run committed the results of their batch.
pub open spec fn concluded(
    s: ScheduleView,
    limit: usize,
    stream: RunStreamView,
    pending: PendingRunHandleView,
    committed: Seq<LocalStreamEventView>,
    reasons: PassReasons,
) -> ConcludedView {
    let t = driven(s, limit as nat, reasons);
    if first_stall(s, limit as nat, 1, reasons) is None {
        ConcludedView {
            schedule: t,
            stream,
            events: Seq::empty(),
            progress: StreamProgressView::Failed(drive_failure(limit)),
        }
    } else {
        let seen = received(t.handle, stream, Seq::empty(), details_of(t, pending));
        let u = ScheduleView { handle: seen.handle, ..t };
        let told = results_committed(details_of(s, pending).0, details_of(t, pending).0);
        let heard = ConcludedView {
            schedule: u,
            stream: seen.stream,
            events: (if told {
                committed
            } else {
                Seq::empty()
            }) + seen.events,
            progress: seen.progress,
        };
        if seen.progress == StreamProgressView::Open {
            let read = ConcludedView { schedule: after_reading(u, pending), ..heard };
            match prompt_outcome(u, pending) {
                Ok(Some(result)) => ConcludedView {
                    events: heard.events.push(
                        LocalStreamEventView::Finished {
                            output: result.output,
                            transcript: result.transcript,
                            completion_calls: result.completion_calls,
                        },
                    ),
                    progress: StreamProgressView::Finished,
                    ..read
                },
                Ok(None) => read,
                Err(error) => ConcludedView { progress: StreamProgressView::Failed(error), ..read },
            }
        } else {
            heard
        }
    }
}

/// Ends a round of a streamed run.
pub fn conclude_round(
    runtime: &mut Runtime,
    stream: &mut RunStream,
    pending: &PendingRunHandle,
    committed: Vec<LocalStreamEvent>,
) -> (r: (Vec<LocalStreamEvent>, StreamProgress))
    ensures
        exists|reasons: PassReasons|
            {
                let c = #[trigger] concluded(
                    old(runtime)@,
                    old(runtime).progress_limit,
                    old(stream)@,
                    pending@,
                    committed.deep_view(),
                    reasons,
                );
                &&& final(runtime)@ == c.schedule
                &&& final(stream)@ == c.stream
                &&& r.0.deep_view() == c.events
                &&& r.1@ == c.progress
            },
        final(runtime).progress_limit == old(runtime).progress_limit,
{
    let ghost s = runtime@;
    let ghost limit = runtime.progress_limit;
    let ghost from = stream@;
    let ghost held = committed.deep_view();
    let (before, _) = runtime.details_for_pending(pending);
    let known: usize = before.len();
    assert(before.deep_view().len() == known);
    let mut events: Vec<LocalStreamEvent> = Vec::new();
    assert(events.deep_view() =~= Seq::empty());
    let driving = runtime.drive_once();
    let ghost reasons = choose|reasons: PassReasons|
        {
            &&& runtime@ == #[trigger] driven(s, limit as nat, reasons)
            &&& match first_stall(s, limit as nat, 1, reasons) {
                Some(_) => driving is Ok,
                None => driving is Err && driving->Err_0@ == drive_failure(limit),
            }
        };
    let ghost c = concluded(s, limit, from, pending@, held, reasons);
    if let Err(error) = driving {
        assert(runtime@ == c.schedule);
        return (events, StreamProgress::Failed(error));
    }
    let (after, _) = runtime.details_for_pending(pending);
    assert(after.deep_view().len() == after@.len());
    if known < after.len() {
        assert(after.deep_view()[known as int] == after@[known as int]@);
        if let TranscriptEntry::ToolResult { .. } = &after[known] {
            events = committed;
        }
    }
    let (mut seen, progress) = runtime.receive_events(stream, pending);
    let ghost said = events.deep_view();
    let ghost heard = seen.deep_view();
    events.append(&mut seen);
    assert(events.deep_view() =~= said + heard);
    let r = match progress {
        StreamProgress::Open => match runtime.read_outcome(pending) {
            Ok(Some(result)) => {
                let ghost before = events.deep_view();
                let event = LocalStreamEvent::Finished {
                    output: result.output,
                    transcript: result.transcript,
                    completion_calls: result.completion_calls,
                };
                let ghost view = event@;
                events.push(event);
                assert(events.deep_view() =~= before.push(view));
                (events, StreamProgress::Finished)
            },
            Ok(None) => (events, StreamProgress::Open),
            Err(error) => (events, StreamProgress::Failed(error)),
        },
        progress => (events, progress),
    };
    proof {
        assert(runtime@ == c.schedule);
        assert(stream@ == c.stream);
        assert(r.0.deep_view() == c.events);
        assert(r.1@ == c.progress);
    }
    r
}

/// Whether an event says that a tool call or its result was committed.
pub open spec fn tells_commit(event: LocalStreamEventView) -> bool {
    event is ToolCommitted || event is ToolResult
}

/// The stream of a run tells nothing of tool calls.
proof fn lemma_received_tells_no_commit(
    handle: RuntimeHandleView,
    stream: RunStreamView,
    events: Seq<LocalStreamEventView>,
    details: (Seq<TranscriptEntryView>, Seq<Usage>),
)
    requires
        forall|i: int| 0 <= i < events.len() ==> !tells_commit(#[trigger] events[i]),
    ensures
        ({
            let seen = received(handle, stream, events, details).events;
            forall|i: int| 0 <= i < seen.len() ==> !tells_commit(#[trigger] seen[i])
        }),
    decreases waiting(handle, stream),
{
    let (handle_next, stream_next) = after_item(handle, stream);
    match crate::handle::stream_next(handle.streams, stream.stream) {
        Ok(Some(crate::run::StreamItemView::Delta { text, .. })) => {
            if waiting(handle_next, stream_next) < waiting(handle, stream) {
                lemma_received_tells_no_commit(
                    handle_next,
                    stream_next,
                    events.push(LocalStreamEventView::Delta(text)),
                    details,
                );
            }
        },
        _ => {},
    }
}

/// A tool call and its result are reported only after their batch was committed: where the
/// transcript of the run got no results, no event of the round tells of them.
pub proof fn law_failed_batches_report_no_results(
    s: ScheduleView,
    limit: usize,
    stream: RunStreamView,
    pending: PendingRunHandleView,
    committed: Seq<LocalStreamEventView>,
    reasons: PassReasons,
)
    requires
        !results_committed(
            details_of(s, pending).0,
            details_of(driven(s, limit as nat, reasons), pending).0,
        ),
    ensures
        ({
            let events = concluded(s, limit, stream, pending, committed, reasons).events;
            forall|i: int| 0 <= i < events.len() ==> !tells_commit(#[trigger] events[i])
        }),
{
    let t = driven(s, limit as nat, reasons);
    lemma_received_tells_no_commit(t.handle, stream, Seq::empty(), details_of(t, pending));
}

/// Passes an item of a streamed answer on to a runtime: a piece of text becomes the next delta,
/// anything else is left to the end of the answer.
pub fn forward_item(
    effects: &mut EffectIo,
    operation: Entity,
    generation: u64,
    sequence: &mut u64,
    item: StreamedAssistantContent,
) -> (r: Result<(), CanonicalError>)
    ensures
        match item@ {
            StreamedAssistantContentView::Text(text) => {
                &&& final(effects)@ == old(effects)@.told(
                    EffectIngressView::Delta(
                        EffectDeltaView { operation, generation, sequence: *old(sequence), text },
                    ),
                )
                &&& *final(sequence) == next_sequence(*old(sequence))
                &&& match (old(effects)@.ingress.refusal(), r) {
                    (None, Ok(_)) => true,
                    (Some(refusal), Err(error)) => error@ == (CanonicalErrorView::Provider {
                        message: "stream delta ingress failed: "@ + effect_error_text(
                            ingress_refusal(refusal),
                        ),
                        retryable: true,
                    }),
                    _ => false,
                }
            },
            _ => r is Ok && final(effects)@ == old(effects)@ && *final(sequence) == *old(sequence),
        },
{
    match item {
        StreamedAssistantContent::Text(text) => {
            let delta = next_delta(operation, generation, sequence, text);
            match effects.try_send_delta(delta) {
                Ok(_) => Ok(()),
                Err(error) => {
                    let reason = error.text();
                    Err(delta_failure(reason.as_str()))
                },
            }
        },
        _ => Ok(()),
    }
}

/// The tool calls among requests, in their order.
pub open spec fn tool_requests(requests: Seq<EffectRequestView>) -> Seq<ToolRequestView>
    decreases requests.len(),
{
    if requests.len() == 0 {
        Seq::empty()
    } else {
        let rest = tool_requests(requests.drop_first());
        match requests[0].input {
            crate::effect::EffectInputView::Tool(input) => seq![
                ToolRequestView {
                    operation: requests[0].operation,
                    generation: requests[0].generation,
                    input,
                },
            ] + rest,
            _ => rest,
        }
    }
}

/// The tool calls of a round are handed out together and in order, once nothing else is left of
/// the round: neither a request to the model nor one to a store that has an executor.
pub proof fn law_tools_come_last(
    s: ScheduleView,
    limit: usize,
    round: RoundView,
    stores: Seq<ExecutorKeyView>,
    reasons: DriveReasons,
)
    ensures
        decided(s, limit, round, stores, reasons).step matches Ok(RoundStepView::Tools(batch)) ==> {
            &&& batch == round.batch + tool_requests(round.requests)
            &&& decided(s, limit, round, stores, reasons).round.requests.len() == 0
            &&& decided(s, limit, round, stores, reasons).round.batch.len() == 0
            &&& forall|i: int|
                0 <= i < round.requests.len() ==> match routed(
                    #[trigger] round.requests[i].input,
                    stores,
                ) {
                    EffectRouteView::Tool(_) | EffectRouteView::Failed(_) => true,
                    _ => false,
                }
        },
    decreases round.requests.len(),
{
    if round.requests.len() == 0 {
        assert(round.batch + tool_requests(round.requests) =~= round.batch);
    } else {
        let request = round.requests[0];
        let rest = round.requests.drop_first();
        match routed(request.input, stores) {
            EffectRouteView::Tool(input) => {
                let added = ToolRequestView {
                    operation: request.operation,
                    generation: request.generation,
                    input,
                };
                law_tools_come_last(
                    s,
                    limit,
                    RoundView { requests: rest, batch: round.batch.push(added) },
                    stores,
                    reasons.drop_first(),
                );
                assert(round.batch.push(added) + tool_requests(rest) =~= round.batch + (seq![added]
                    + tool_requests(rest)));
            },
            EffectRouteView::Failed(error) => {
                law_tools_come_last(
                    sent(s, limit, failed_completion(request, error), reasons[0]),
                    limit,
                    RoundView { requests: rest, batch: round.batch },
                    stores,
                    reasons.drop_first(),
                );
            },
            _ => {},
        }
        assert forall|i: int| 0 <= i < round.requests.len() implies #[trigger] round.requests[i].input
            == (if i == 0 {
            request
        } else {
            rest[i - 1]
        }).input by {}
    }
}

/// What the items of a streamed answer lead to, one after the other.
pub open spec fn fed_all(
    s: ScheduleView,
    limit: usize,
    stream: RunStreamView,
    pending: PendingRunHandleView,
    model: ModelStreamView,
    items: Seq<StreamedAssistantContentView>,
    reasons: Seq<(PassReasons, PassReasons)>,
) -> FedView
    decreases items.len(),
{
    if items.len() == 0 {
        FedView {
            schedule: s,
            stream,
            model,
            events: Seq::empty(),
            progress: FeedProgressView::Open,
        }
    } else {
        let before = fed_all(s, limit, stream, pending, model, items.drop_last(), reasons);
        let (told, seen) = reasons[items.len() - 1];
        fed(
            before.schedule,
            limit,
            before.stream,
            pending,
            before.model,
            items.last(),
            told,
            seen,
        )
    }
}

/// The number of texts among items.
pub open spec fn texts(items: Seq<StreamedAssistantContentView>) -> nat
    decreases items.len(),
{
    if items.len() == 0 {
        0
    } else {
        texts(items.drop_last()) + (if items.last() is Text {
            1nat
        } else {
            0nat
        })
    }
}

/// The deltas of a streamed answer are numbered in order: before each item, the next number is
/// the count of the texts so far, and the largest number is used again once it is reached.
pub proof fn law_deltas_are_numbered_in_order(
    s: ScheduleView,
    limit: usize,
    stream: RunStreamView,
    pending: PendingRunHandleView,
    model: ModelStreamView,
    items: Seq<StreamedAssistantContentView>,
    reasons: Seq<(PassReasons, PassReasons)>,
)
    requires
        model.sequence == 0,
    ensures
        fed_all(s, limit, stream, pending, model, items, reasons).model.sequence == (if texts(items)
            <= u64::MAX {
            texts(items) as int
        } else {
            u64::MAX as int
        }),
        fed_all(s, limit, stream, pending, model, items, reasons).model.operation
            == model.operation,
        fed_all(s, limit, stream, pending, model, items, reasons).model.generation
            == model.generation,
    decreases items.len(),
{
    if items.len() > 0 {
        law_deltas_are_numbered_in_order(
            s,
            limit,
            stream,
            pending,
            model,
            items.drop_last(),
            reasons,
        );
    }
}

/// A text that reaches the runtime is not reported by itself: what is reported is what the stream
/// of the run holds once the runtime has taken the text in.
pub proof fn law_texts_are_reported_from_the_run(
    s: ScheduleView,
    limit: usize,
    stream: RunStreamView,
    pending: PendingRunHandleView,
    model: ModelStreamView,
    text: Seq<char>,
    told: PassReasons,
    seen: PassReasons,
)
    requires
        send_failure(s, limit, told) is None,
    ensures
        ({
            let f = fed(
                s,
                limit,
                stream,
                pending,
                model,
                StreamedAssistantContentView::Text(text),
                told,
                seen,
            );
            let delta = EffectDeltaView {
                operation: model.operation,
                generation: model.generation,
                sequence: model.sequence,
                text,
            };
            let t = driven(
                sent(s, limit, EffectIngressView::Delta(delta), told),
                limit as nat,
                seen,
            );
            f.events.len() > 0 ==> f.events == received(
                t.handle,
                stream,
                Seq::empty(),
                details_of(t, pending),
            ).events
        }),
{
}

} // verus!
