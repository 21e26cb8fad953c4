//! What a driver does in a round.

use vstd::prelude::*;

use crate::correlate::tool_events_of;
use crate::drive::{details_of, prompt_outcome, received, send_failure, sent, StreamProgressView};
use crate::driver::{
    call_events, committed_events, concluded, decided, fed, settled, DriveReasons, ModelStreamView,
    RoundStepView, RoundView, ToolRequestView,
};
use crate::effect::{CanonicalErrorView, EffectCompletionView, EffectIngressView, EffectOutputView};
use crate::executor::{CorrelatedCallView, ExecutorKeyView};
use crate::handle::RunStreamView;
use crate::message::DecodedEntryView;
use crate::report::{LocalStreamEventView, StreamedAssistantContentView};
use crate::run::PendingRunHandleView;
use crate::schedule::{driven, first_stall, PassReasons, ScheduleView};

verus! {

/// The next thing to do in a round is the first request: a model or a store is asked at once, with
/// the input, the operation and the generation of the request. A tool call waits in the batch, and
/// the batch is run where no request is left.
pub proof fn law_rounds_go_request_by_request(
    s: ScheduleView,
    limit: usize,
    round: RoundView,
    stores: Seq<ExecutorKeyView>,
    reasons: DriveReasons,
)
    ensures
        ({
            let d = decided(s, limit, round, stores, reasons);
            let first = round.requests[0];
            &&& round.requests.len() == 0 ==> {
                &&& d.step is Ok
                &&& d.step->Ok_0 == RoundStepView::Tools(round.batch)
                &&& d.schedule == s
                &&& d.round.batch.len() == 0
            }
            &&& round.requests.len() > 0 && first.input is Model ==> {
                &&& d.step is Ok
                &&& d.step->Ok_0 == (RoundStepView::Model {
                    operation: first.operation,
                    generation: first.generation,
                    input: first.input->Model_0,
                })
                &&& d.round.requests == round.requests.skip(1)
                &&& d.round.batch == round.batch
                &&& d.schedule == s
            }
            &&& round.requests.len() > 0 && first.input is Tool ==> d == decided(
                s,
                limit,
                RoundView {
                    requests: round.requests.skip(1),
                    batch: round.batch.push(
                        ToolRequestView {
                            operation: first.operation,
                            generation: first.generation,
                            input: first.input->Tool_0,
                        },
                    ),
                },
                stores,
                reasons.drop_first(),
            )
            &&& round.requests.len() > 0 && first.input is Store && (exists|i: int|
                0 <= i < stores.len() && (#[trigger] stores[i]).id
                    == first.input->Store_0.decision.store_id && stores[i].revision
                    == first.input->Store_0.decision.revision) ==> {
                &&& d.step is Ok
                &&& d.step->Ok_0 is Store
                &&& d.step->Ok_0->Store_operation == first.operation
                &&& d.step->Ok_0->Store_generation == first.generation
                &&& d.step->Ok_0->Store_input == first.input->Store_0
                &&& 0 <= d.step->Ok_0->position < stores.len()
                &&& stores[d.step->Ok_0->position].id == first.input->Store_0.decision.store_id
            }
        }),
{
    if round.requests.len() > 0 {
        assert(round.requests.skip(1) =~= round.requests.drop_first());
        crate::laws_facade::law_work_is_routed_by_kind_and_revision(
            round.requests[0].input,
            stores,
        );
    }
}

/// A request that nothing can carry out is answered with its failure, in its generation, and the
/// round goes on.
pub proof fn law_requests_without_executor_fail(
    s: ScheduleView,
    limit: usize,
    round: RoundView,
    stores: Seq<ExecutorKeyView>,
    reasons: DriveReasons,
)
    requires
        round.requests.len() > 0,
        round.requests[0].input is Discovery,
        s.effects.ingress.receiving,
        s.effects.ingress.items.len() < s.effects.ingress.capacity,
    ensures
        ({
            let first = round.requests[0];
            let failed = EffectIngressView::Completion(
                EffectCompletionView {
                    operation: first.operation,
                    generation: first.generation,
                    result: Err(CanonicalErrorView::EffectKindMismatch),
                },
            );
            let t = sent(s, limit, failed, reasons[0]);
            &&& t.effects.ingress.items == s.effects.ingress.items.push(failed)
            &&& decided(s, limit, round, stores, reasons) == decided(
                t,
                limit,
                RoundView { requests: round.requests.skip(1), batch: round.batch },
                stores,
                reasons.drop_first(),
            )
        }),
{
    assert(round.requests.skip(1) =~= round.requests.drop_first());
}

/// A message that there is room for stands behind the messages that wait; where there is none the
/// runtime is driven first. Where nobody takes messages it does not get through.
pub proof fn law_messages_are_sent_behind_each_other(
    s: ScheduleView,
    limit: usize,
    message: EffectIngressView,
    reasons: PassReasons,
)
    ensures
        s.effects.ingress.receiving && s.effects.ingress.items.len() < s.effects.ingress.capacity
            ==> {
            &&& send_failure(s, limit, reasons) is None
            &&& sent(s, limit, message, reasons).effects.ingress.items
                == s.effects.ingress.items.push(message)
            &&& sent(s, limit, message, reasons).world == s.world
        },
        !s.effects.ingress.receiving ==> {
            &&& send_failure(s, limit, reasons) is Some
            &&& sent(s, limit, message, reasons).effects.ingress == s.effects.ingress
        },
{
}

/// Completions are sent one after the other, up to the first that does not get through.
pub proof fn law_completions_are_settled_in_order(
    s: ScheduleView,
    limit: usize,
    completions: Seq<EffectCompletionView>,
    reasons: DriveReasons,
)
    requires
        s.effects.ingress.receiving,
        s.effects.ingress.items.len() + completions.len() <= s.effects.ingress.capacity,
    ensures
        ({
            let (t, failure) = settled(s, limit, completions, reasons);
            &&& failure is None
            &&& t.world == s.world
            &&& t.effects.ingress.items.len() == s.effects.ingress.items.len() + completions.len()
            &&& forall|i: int|
                0 <= i < s.effects.ingress.items.len() ==> t.effects.ingress.items[i]
                    == #[trigger] s.effects.ingress.items[i]
            &&& forall|i: int|
                0 <= i < completions.len() ==> t.effects.ingress.items[s.effects.ingress.items.len()
                    + i] == EffectIngressView::Completion(#[trigger] completions[i])
        }),
    decreases completions.len(),
{
    if completions.len() > 0 {
        let next = sent(
            s,
            limit,
            EffectIngressView::Completion(completions[0]),
            reasons[0],
        );
        law_completions_are_settled_in_order(
            next,
            limit,
            completions.drop_first(),
            reasons.drop_first(),
        );
        let (t, failure) = settled(s, limit, completions, reasons);
        let n = s.effects.ingress.items.len();
        assert forall|i: int| 0 <= i < n implies t.effects.ingress.items[i]
            == #[trigger] s.effects.ingress.items[i] by {
            assert(next.effects.ingress.items[i] == s.effects.ingress.items[i]);
        }
        assert forall|i: int| 0 <= i < completions.len() implies t.effects.ingress.items[n + i]
            == EffectIngressView::Completion(#[trigger] completions[i]) by {
            if i == 0 {
                assert(next.effects.ingress.items[n as int] == EffectIngressView::Completion(
                    completions[0],
                ));
            } else {
                assert(completions.drop_first()[i - 1] == completions[i]);
            }
        }
    }
}

/// A complete tool call in a streamed answer is kept for its end, with its id; what is neither a
/// text nor a call is reported at once; neither touches the runtime.
pub proof fn law_streamed_calls_wait_for_the_end(
    s: ScheduleView,
    limit: usize,
    stream: RunStreamView,
    pending: PendingRunHandleView,
    model: ModelStreamView,
    item: StreamedAssistantContentView,
    told: PassReasons,
    seen: PassReasons,
)
    ensures
        ({
            let f = fed(s, limit, stream, pending, model, item, told, seen);
            &&& item is ToolCall ==> {
                &&& f.model.observed == model.observed.push(
                    (item->ToolCall_tool_call, item->ToolCall_internal_call_id),
                )
                &&& f.model.sequence == model.sequence
                &&& f.events.len() == 0
                &&& f.schedule == s
            }
            &&& item is Reasoning ==> {
                &&& f.events == seq![LocalStreamEventView::Reasoning(item->Reasoning_0)]
                &&& f.model == model
                &&& f.schedule == s
            }
            &&& item is Last ==> f.events.len() == 0 && f.model == model && f.schedule == s
            &&& !(item is Text) ==> f.progress is Open && f.stream == stream
            &&& item is Text ==> f.model.observed == model.observed
        }),
{
}

/// Each call of an answer is reported with its internal id, in order.
pub proof fn law_calls_are_reported_in_order(calls: Seq<CorrelatedCallView>, i: int)
    requires
        0 <= i < calls.len(),
    ensures
        call_events(calls).len() == calls.len(),
        call_events(calls)[i] == (LocalStreamEventView::ToolCall {
            tool_call: calls[i].tool_call,
            internal_call_id: calls[i].internal_call_id,
        }),
{
}

/// One more executed call adds its reports where it succeeded, and nothing where it failed.
pub proof fn law_executed_calls_are_reported_in_order(
    calls: Seq<CorrelatedCallView>,
    completions: Seq<EffectCompletionView>,
    decoded: Seq<DecodedEntryView>,
    n: int,
)
    requires
        0 <= n < completions.len(),
        decoded.len() == completions.len(),
    ensures
        committed_events(calls, completions, decoded, 0).len() == 0,
        match completions[n].result {
            Ok(EffectOutputView::Tool(output)) => committed_events(
                calls,
                completions,
                decoded,
                n + 1,
            ) == committed_events(calls, completions, decoded, n) + tool_events_of(
                calls,
                output,
                decoded[n],
            ),
            _ => committed_events(calls, completions, decoded, n + 1) == committed_events(
                calls,
                completions,
                decoded,
                n,
            ),
        },
{
}

/// A round whose batch was committed begins its report with the executed calls. A stream that goes
/// on is asked for the outcome of its run, which ends the report where it has one.
pub proof fn law_committed_batches_are_reported_first(
    s: ScheduleView,
    limit: usize,
    stream: RunStreamView,
    pending: PendingRunHandleView,
    committed: Seq<LocalStreamEventView>,
    reasons: PassReasons,
)
    requires
        first_stall(s, limit as nat, 1, reasons) is Some,
    ensures
        ({
            let t = driven(s, limit as nat, reasons);
            let before = details_of(s, pending).0;
            let after = details_of(t, pending).0;
            let seen = received(t.handle, stream, Seq::empty(), details_of(t, pending));
            let c = concluded(s, limit, stream, pending, committed, reasons);
            let outcome = prompt_outcome(ScheduleView { handle: seen.handle, ..t }, pending);
            &&& before.len() < after.len() && after[before.len() as int] is ToolResult
                ==> committed.is_prefix_of(c.events)
            &&& seen.progress is Finished ==> c.progress is Finished
            &&& seen.progress is Failed ==> c.progress == seen.progress
            &&& seen.progress is Open && outcome is Ok && outcome->Ok_0 is Some ==> {
                &&& c.progress is Finished
                &&& c.events.len() > 0
                &&& c.events.last() == (LocalStreamEventView::Finished {
                    output: outcome->Ok_0->0.output,
                    transcript: outcome->Ok_0->0.transcript,
                    completion_calls: outcome->Ok_0->0.completion_calls,
                })
            }
            &&& seen.progress is Open && outcome is Ok && outcome->Ok_0 is None ==> c.progress
                is Open
            &&& seen.progress is Open && outcome is Err ==> c.progress
                == StreamProgressView::Failed(outcome->Err_0)
        }),
{
    let t = driven(s, limit as nat, reasons);
    let before = details_of(s, pending).0;
    let after = details_of(t, pending).0;
    let c = concluded(s, limit, stream, pending, committed, reasons);
    if before.len() < after.len() && after[before.len() as int] is ToolResult {
        assert(c.events.subrange(0, committed.len() as int) =~= committed);
    }
}

/// A store operation for which there is no store of its id and revision is answered with its
/// failure, which names them, and the round goes on.
pub proof fn law_operations_without_store_fail(
    s: ScheduleView,
    limit: usize,
    round: RoundView,
    stores: Seq<ExecutorKeyView>,
    reasons: DriveReasons,
)
    requires
        round.requests.len() > 0,
        round.requests[0].input is Store,
        forall|i: int|
            0 <= i < stores.len() ==> !((#[trigger] stores[i]).id
                == round.requests[0].input->Store_0.decision.store_id && stores[i].revision
                == round.requests[0].input->Store_0.decision.revision),
        s.effects.ingress.receiving,
        s.effects.ingress.items.len() < s.effects.ingress.capacity,
    ensures
        ({
            let first = round.requests[0];
            let decision = first.input->Store_0.decision;
            let failed = EffectIngressView::Completion(
                EffectCompletionView {
                    operation: first.operation,
                    generation: first.generation,
                    result: Err(
                        CanonicalErrorView::StaleEntity(
                            "store revision "@ + decision.store_id + "@"@
                                + crate::text::decimal_text(decision.revision as nat),
                        ),
                    ),
                },
            );
            let t = sent(s, limit, failed, reasons[0]);
            &&& t.effects.ingress.items == s.effects.ingress.items.push(failed)
            &&& decided(s, limit, round, stores, reasons) == decided(
                t,
                limit,
                RoundView { requests: round.requests.skip(1), batch: round.batch },
                stores,
                reasons.drop_first(),
            )
        }),
{
    assert(round.requests.skip(1) =~= round.requests.drop_first());
    crate::laws_facade::law_work_is_routed_by_kind_and_revision(round.requests[0].input, stores);
}

} // verus!
