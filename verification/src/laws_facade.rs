//! What callers and executors see of the runtime.

use vstd::prelude::*;

use crate::adapters::{
    discovery_refusal, documents_found, model_binding_refusal, model_result, revision_text,
    store_refusal, tool_refusal, tool_result,
};
use crate::column::{lemma_sources, sources_of, Entity};
use crate::correlate::{executor_at, provider_step_of, routed, EffectRouteView, ProviderStepView};
use crate::drive::{prompt_outcome, received, StreamProgressView};
use crate::effect::{
    CanonicalErrorView, DiscoveryEffectInputView, EffectInputView, ModelEffectInputView,
    RunOutputView, StoreEffectInputView, ToolEffectInputView, ToolEffectOutputView,
    TranscriptEntryView, Usage,
};
use crate::executor::{
    CompletionModelAdapterView, DiscoveryAdapterView, ExecutorKeyView, StoreAdapterView,
    ToolAdapterView, ToolOutcomeView,
};
use crate::fold::{lemma_picked_members, picked};
use crate::handle::{run_id_text, PromptOptionsView, RunStreamView, RuntimeHandleView};
use crate::json::{json_pretty, json_text};
use crate::message::{CompletionUsage, MessageView, NormalizedOutputView};
use crate::report::{
    LocalAgentErrorView, LocalRunResultView, LocalStreamEventView, MultiTurnStreamItemView,
    StreamedAssistantContentView,
};
use crate::response::{item_of, response_of_run};
use crate::run::{
    PendingRunHandleView, PromptPayloadView, RuntimeCommandView, StreamItemView, StreamReceiveError,
    StreamTerminalView, SubmitErrorView,
};
use crate::runtime::{turn_row, turns_of_run};
use crate::schedule::ScheduleView;
use crate::sorting::{key_le, lemma_sort_rows, row_values, sort_rows};
use crate::text::decimal_text;
use crate::unique::lemma_decimal_injective;
use crate::world::WorldView;

verus! {

proof fn lemma_revision_text(what: Seq<char>, id: Seq<char>, revision: u64)
    ensures
        revision_text(what, id, revision) == what + id + "@"@ + decimal_text(revision as nat),
{
    reveal_with_fuel(crate::text::concatenation, 5);
    assert(revision_text(what, id, revision) =~= what + id + "@"@ + decimal_text(revision as nat));
}

/// Executors take work for their own capability in their own revision, and no other: what they
/// refuse is named. A discovery goes by its source alone, and a model that is bound to nothing
/// takes all work.
pub proof fn law_executors_take_their_own_work(
    tool: ToolAdapterView,
    call: ToolEffectInputView,
    store: StoreAdapterView,
    access: StoreEffectInputView,
    source: DiscoveryAdapterView,
    refresh: DiscoveryEffectInputView,
    model: CompletionModelAdapterView,
    request: ModelEffectInputView,
)
    ensures
        tool_refusal(tool, call) is None <==> call.decision.tool_id == tool.id
            && call.decision.revision == tool.revision,
        tool_refusal(tool, call) is Some ==> tool_refusal(tool, call) == Some(
            CanonicalErrorView::StaleEntity(
                "tool revision "@ + call.decision.tool_id + "@"@ + decimal_text(
                    call.decision.revision as nat,
                ),
            ),
        ),
        store_refusal(store, access) is None <==> access.decision.store_id == store.id
            && access.decision.revision == store.revision,
        store_refusal(store, access) is Some ==> store_refusal(store, access) == Some(
            CanonicalErrorView::StaleEntity(
                "store revision "@ + access.decision.store_id + "@"@ + decimal_text(
                    access.decision.revision as nat,
                ),
            ),
        ),
        discovery_refusal(source, refresh) is None <==> refresh.source_id == source.source_id,
        discovery_refusal(source, refresh) is Some ==> discovery_refusal(source, refresh) == Some(
            CanonicalErrorView::StaleEntity("discovery source "@ + refresh.source_id),
        ),
        model_binding_refusal(model, request) is None <==> model.binding is None || model.binding
            == Some(request.decision),
        model_binding_refusal(model, request) is Some ==> model_binding_refusal(model, request)
            == Some(
            CanonicalErrorView::StaleEntity(
                "model revision "@ + request.decision.model_id + "@"@ + decimal_text(
                    request.decision.revision as nat,
                ),
            ),
        ),
{
    lemma_revision_text("tool revision "@, call.decision.tool_id, call.decision.revision);
    lemma_revision_text("store revision "@, access.decision.store_id, access.decision.revision);
    lemma_revision_text("model revision "@, request.decision.model_id, request.decision.revision);
}

/// The result of a tool answers its own call, under the ids of the provider. A call that failed is
/// answered with what the model may see of the failure, and the failure is kept apart from it.
pub proof fn law_tool_results_answer_their_call(input: ToolEffectInputView, outcome: ToolOutcomeView)
    ensures
        ({
            let result = tool_result(input, outcome);
            let output = result->Ok_0;
            &&& result is Ok ==> {
                &&& output.call_id == input.call_id
                &&& output.provider_result_id == input.provider_result_id
                &&& output.provider_call_id == input.provider_call_id
                &&& output.name == input.decision.name
            }
            &&& outcome is Completed && outcome->Completed_0.raw is Encoded ==> {
                &&& result is Ok
                &&& output.raw == outcome->Completed_0.raw->Encoded_0
                &&& output.presentation == outcome->Completed_0.presentation
                &&& output.failure is None
            }
            &&& outcome is Completed && outcome->Completed_0.raw is Refused ==> result == Err::<
                ToolEffectOutputView,
                CanonicalErrorView,
            >(
                CanonicalErrorView::Tool {
                    message: "failed to serialize output: "@ + outcome->Completed_0.raw->Refused_0,
                    retryable: false,
                },
            )
            &&& outcome is Failed && outcome->Failed_0.model_output.raw is Encoded ==> {
                &&& result is Ok
                &&& output.raw == outcome->Failed_0.model_output.raw->Encoded_0
                &&& output.presentation == outcome->Failed_0.model_output.presentation
                &&& output.failure is Some
                &&& output.failure->0.message == outcome->Failed_0.message
                &&& output.failure->0.retryable == outcome->Failed_0.retryable
                &&& output.failure->0.kind == outcome->Failed_0.kind
                &&& output.failure->0.refusal == outcome->Failed_0.refusal
            }
            &&& outcome is Failed && outcome->Failed_0.model_output.raw is Refused ==> result
                == Err::<ToolEffectOutputView, CanonicalErrorView>(
                CanonicalErrorView::Tool {
                    message: "failed to serialize model-visible tool failure: "@
                        + outcome->Failed_0.model_output.raw->Refused_0,
                    retryable: false,
                },
            )
            &&& outcome is Unencodable ==> result == Err::<
                ToolEffectOutputView,
                CanonicalErrorView,
            >(
                CanonicalErrorView::Tool {
                    message: "failed to serialize tool arguments: "@ + outcome->Unencodable_0,
                    retryable: false,
                },
            )
        }),
{
}

/// A model that fails gives a provider error with its words.
pub proof fn law_failed_models_are_provider_errors(message: Seq<char>)
    ensures
        model_result(Err(message)) == Err::<NormalizedOutputView, CanonicalErrorView>(
            CanonicalErrorView::Provider { message, retryable: false },
        ),
{
}

/// Each value that a search found becomes a document under its identity, in order, with its
/// indented text where that can be written.
pub proof fn law_found_values_become_documents(hits: Seq<(String, serde_json::Value)>, i: int)
    requires
        0 <= i < hits.len(),
    ensures
        documents_found(hits).len() == hits.len(),
        documents_found(hits)[i].id == hits[i].0@,
        json_pretty(hits[i].1) is Some ==> documents_found(hits)[i].text == json_pretty(
            hits[i].1,
        )->0,
        json_pretty(hits[i].1) is None ==> documents_found(hits)[i].text == json_text(hits[i].1),
        documents_found(hits)[i].metadata.dom() == Set::<Seq<char>>::empty(),
{
    assert(documents_found(hits)[i].metadata.dom() =~= Set::<Seq<char>>::empty());
}

proof fn lemma_executor(
    keys: Seq<ExecutorKeyView>,
    id: Seq<char>,
    revision: u64,
    from: int,
)
    requires
        0 <= from,
    ensures
        match executor_at(keys, id, revision, from) {
            Some(i) => {
                &&& from <= i < keys.len()
                &&& keys[i].id == id
                &&& keys[i].revision == revision
                &&& forall|j: int|
                    from <= j < i ==> !((#[trigger] keys[j]).id == id && keys[j].revision
                        == revision)
            },
            None => forall|j: int|
                from <= j < keys.len() ==> !((#[trigger] keys[j]).id == id && keys[j].revision
                    == revision),
        },
    decreases keys.len() - from,
{
    if from < keys.len() {
        lemma_executor(keys, id, revision, from + 1);
    }
}

/// Work goes to the executor of its kind, and a store operation to the first store of its id and
/// revision; without one it fails and names them. A discovery has no local executor.
pub proof fn law_work_is_routed_by_kind_and_revision(
    input: EffectInputView,
    stores: Seq<ExecutorKeyView>,
)
    ensures
        input is Model ==> routed(input, stores) == EffectRouteView::Model(input->Model_0),
        input is Tool ==> routed(input, stores) == EffectRouteView::Tool(input->Tool_0),
        input is Discovery ==> routed(input, stores) == EffectRouteView::Failed(
            CanonicalErrorView::EffectKindMismatch,
        ),
        input is Store ==> match routed(input, stores) {
            EffectRouteView::Store(given, i) => {
                &&& given == input->Store_0
                &&& 0 <= i < stores.len()
                &&& stores[i].id == given.decision.store_id
                &&& stores[i].revision == given.decision.revision
            },
            EffectRouteView::Failed(error) => {
                let decision = input->Store_0.decision;
                &&& forall|j: int|
                    0 <= j < stores.len() ==> !((#[trigger] stores[j]).id == decision.store_id
                        && stores[j].revision == decision.revision)
                &&& error == CanonicalErrorView::StaleEntity(
                    "store revision "@ + decision.store_id + "@"@ + decimal_text(
                        decision.revision as nat,
                    ),
                )
            },
            _ => false,
        },
{
    if let EffectInputView::Store(given) = input {
        lemma_executor(stores, given.decision.store_id, given.decision.revision, 0);
        lemma_revision_text(
            "store revision "@,
            given.decision.store_id,
            given.decision.revision,
        );
    }
}

proof fn lemma_run_id(runtime_id: u64, sequence: u64)
    ensures
        run_id_text(runtime_id, sequence) == "run-"@ + decimal_text(runtime_id as nat) + "-"@
            + decimal_text(sequence as nat),
{
    reveal_with_fuel(crate::text::concatenation, 5);
    assert(run_id_text(runtime_id, sequence) =~= "run-"@ + decimal_text(runtime_id as nat) + "-"@
        + decimal_text(sequence as nat));
}

/// Two runs of one runtime with different numbers have different ids.
pub proof fn law_run_ids_differ(runtime_id: u64, a: u64, b: u64)
    requires
        a != b,
    ensures
        run_id_text(runtime_id, a) != run_id_text(runtime_id, b),
{
    lemma_run_id(runtime_id, a);
    lemma_run_id(runtime_id, b);
    if run_id_text(runtime_id, a) == run_id_text(runtime_id, b) {
        let front = "run-"@ + decimal_text(runtime_id as nat) + "-"@;
        assert(run_id_text(runtime_id, a).skip(front.len() as int) =~= decimal_text(a as nat));
        assert(run_id_text(runtime_id, b).skip(front.len() as int) =~= decimal_text(b as nat));
        lemma_decimal_injective(a as nat, b as nat);
    }
}

/// A prompt that there is room for waits behind the other commands, with what it asks for and the
/// id of its run. The next prompt gets another number. A stream of a prompt is new and empty, as
/// long as subscribers may wait, and the command names it.
pub proof fn law_prompts_wait_with_what_they_ask(
    h: RuntimeHandleView,
    agent: Entity,
    prompt: PromptPayloadView,
    options: PromptOptionsView,
    subscriber: Option<u64>,
)
    ensures
        ({
            let t = h.prompted(agent, prompt, options, subscriber);
            let room = h.commands.receiving && h.commands.items.len() < h.commands.capacity;
            let command = RuntimeCommandView::Prompt {
                agent,
                run_id: "run-"@ + decimal_text(h.runtime_id as nat) + "-"@ + decimal_text(
                    h.next_run_id as nat,
                ),
                prompt,
                history: options.history,
                output_schema: options.output_schema,
                max_model_calls: options.max_model_calls,
                conversation: options.conversation,
                subscriber,
            };
            &&& room ==> t.commands.items == h.commands.items.push(command)
            &&& !room ==> t.commands == h.commands
            &&& h.next_run_id < u64::MAX ==> t.next_run_id == h.next_run_id + 1
            &&& t.streams == h.streams
            &&& t.observations == h.observations
        }),
        ({
            let t = h.prompted_stream(agent, prompt, options);
            let room = h.commands.receiving && h.commands.items.len() < h.commands.capacity;
            &&& room ==> {
                &&& t.streams.len() == h.streams.len() + 1
                &&& t.streams.drop_last() == h.streams
                &&& t.streams.last().items.len() == 0
                &&& t.streams.last().capacity == h.subscriber_capacity
                &&& t.streams.last().sending
                &&& t.streams.last().receiving
                &&& t.commands.items.last() is Prompt
                &&& t.commands.items.last()->Prompt_subscriber == Some(h.streams.len() as u64)
            }
            &&& !room ==> t.streams == h.streams
        }),
{
    lemma_run_id(h.runtime_id, h.next_run_id);
    let t = h.prompted_stream(agent, prompt, options);
    if h.commands.refusal() is None {
        assert(t.streams.drop_last() =~= h.streams);
    }
}

/// A command is refused where it is meant for another runtime, where the queue is full, and where
/// nobody takes commands any more, and each time says which.
pub proof fn law_refused_commands_say_why(h: RuntimeHandleView, runtime_id: u64)
    ensures
        ({
            let refusal = h.command_refusal(runtime_id);
            &&& runtime_id != h.runtime_id ==> refusal == Some(SubmitErrorView::ForeignRuntime)
            &&& runtime_id == h.runtime_id && !h.commands.receiving ==> refusal == Some(
                SubmitErrorView::Disconnected,
            )
            &&& runtime_id == h.runtime_id && h.commands.receiving && h.commands.items.len()
                >= h.commands.capacity ==> refusal == Some(SubmitErrorView::Backpressure)
            &&& runtime_id == h.runtime_id && h.commands.receiving && h.commands.items.len()
                < h.commands.capacity ==> refusal is None
        }),
{
}

/// Whether the first items of a stream are pieces of text.
pub open spec fn starts_with_texts(items: Seq<StreamItemView>, n: int) -> bool {
    0 <= n <= items.len() && forall|i: int| 0 <= i < n ==> #[trigger] items[i] is Delta
}

/// Whether events are the texts of the first items of a stream, in order.
pub open spec fn tells_texts(
    events: Seq<LocalStreamEventView>,
    items: Seq<StreamItemView>,
    n: int,
) -> bool {
    n <= events.len() && forall|i: int|
        0 <= i < n ==> events[i] == LocalStreamEventView::Delta((#[trigger] items[i])->Delta_text)
}

proof fn lemma_received(
    handle: RuntimeHandleView,
    stream: RunStreamView,
    events: Seq<LocalStreamEventView>,
    details: (Seq<TranscriptEntryView>, Seq<Usage>),
    n: int,
)
    requires
        stream.stream < handle.streams.len(),
        starts_with_texts(handle.streams[stream.stream as int].items, n),
    ensures
        ({
            let items = handle.streams[stream.stream as int].items;
            let r = received(handle, stream, events, details);
            let told = Seq::new(
                n as nat,
                |i: int| LocalStreamEventView::Delta(items[i]->Delta_text),
            );
            &&& n == items.len() && handle.streams[stream.stream as int].sending ==> {
                &&& r.events == events + told
                &&& r.progress is Open
            }
            &&& n == items.len() && !handle.streams[stream.stream as int].sending ==> {
                &&& r.events == events + told
                &&& r.progress == StreamProgressView::Failed(
                    LocalAgentErrorView::Stream(StreamReceiveError::Disconnected),
                )
            }
            &&& n < items.len() && items[n] is Finished ==> match items[n]->Finished_0 {
                StreamTerminalView::Completed(output) => {
                    &&& r.events == (events + told).push(
                        LocalStreamEventView::Finished {
                            output,
                            transcript: details.0,
                            completion_calls: details.1,
                        },
                    )
                    &&& r.progress is Finished
                },
                StreamTerminalView::Failed(error) => {
                    &&& r.events == events + told
                    &&& r.progress == StreamProgressView::Failed(
                        LocalAgentErrorView::Canonical(error),
                    )
                },
                StreamTerminalView::Cancelled => {
                    &&& r.events == events + told
                    &&& r.progress == StreamProgressView::Failed(LocalAgentErrorView::Cancelled)
                },
            }
        }),
    decreases n,
{
    let queue = handle.streams[stream.stream as int];
    let items = queue.items;
    if n > 0 {
        assert(items[0] is Delta);
        let text = items[0]->Delta_text;
        let (next, read) = crate::drive::after_item(handle, stream);
        let rest = next.streams[read.stream as int].items;
        assert(rest =~= items.drop_first());
        assert forall|i: int| 0 <= i < n - 1 implies #[trigger] rest[i] is Delta by {
            assert(items[i + 1] is Delta);
        }
        let more = events.push(LocalStreamEventView::Delta(text));
        lemma_received(next, read, more, details, n - 1);
        let told = Seq::new(
            n as nat,
            |i: int| LocalStreamEventView::Delta(items[i]->Delta_text),
        );
        let rest_told = Seq::new(
            (n - 1) as nat,
            |i: int| LocalStreamEventView::Delta(rest[i]->Delta_text),
        );
        assert(more + rest_told =~= events + told);
        assert(crate::drive::waiting(next, read) < crate::drive::waiting(handle, stream));
    } else {
        let told = Seq::new(
            n as nat,
            |i: int| LocalStreamEventView::Delta(items[i]->Delta_text),
        );
        assert(events + told =~= events);
    }
}

/// A reader of a stream learns the pieces of text that wait in it, in order, and then the outcome:
/// the output of a run that completed, with its transcript and usage, or why it did not. Where
/// nothing more waits it goes on, or, where nothing more will come, fails.
pub proof fn law_streams_are_read_in_order(
    handle: RuntimeHandleView,
    stream: RunStreamView,
    details: (Seq<TranscriptEntryView>, Seq<Usage>),
    n: int,
)
    requires
        stream.stream < handle.streams.len(),
        starts_with_texts(handle.streams[stream.stream as int].items, n),
    ensures
        ({
            let queue = handle.streams[stream.stream as int];
            let items = queue.items;
            let r = received(handle, stream, Seq::empty(), details);
            &&& n == items.len() ==> {
                &&& r.events.len() == n
                &&& tells_texts(r.events, items, n)
                &&& queue.sending ==> r.progress is Open
                &&& !queue.sending ==> r.progress == StreamProgressView::Failed(
                    LocalAgentErrorView::Stream(StreamReceiveError::Disconnected),
                )
            }
            &&& n < items.len() && items[n] is Finished ==> {
                &&& tells_texts(r.events, items, n)
                &&& match items[n]->Finished_0 {
                    StreamTerminalView::Completed(output) => {
                        &&& r.events.len() == n + 1
                        &&& r.events[n] == (LocalStreamEventView::Finished {
                            output,
                            transcript: details.0,
                            completion_calls: details.1,
                        })
                        &&& r.progress is Finished
                    },
                    StreamTerminalView::Failed(error) => {
                        &&& r.events.len() == n
                        &&& r.progress == StreamProgressView::Failed(
                            LocalAgentErrorView::Canonical(error),
                        )
                    },
                    StreamTerminalView::Cancelled => {
                        &&& r.events.len() == n
                        &&& r.progress == StreamProgressView::Failed(LocalAgentErrorView::Cancelled)
                    },
                }
            }
        }),
{
    lemma_received(handle, stream, Seq::empty(), details, n);
    let items = handle.streams[stream.stream as int].items;
    let told = Seq::new(n as nat, |i: int| LocalStreamEventView::Delta(items[i]->Delta_text));
    assert(Seq::<LocalStreamEventView>::empty() + told =~= told);
    assert forall|i: int| 0 <= i < n implies told[i] == LocalStreamEventView::Delta(
        (#[trigger] items[i])->Delta_text,
    ) by {}
}

/// The committed turns of a run stand in the order of their numbers, and none is missing.
pub proof fn law_turns_stand_in_their_order(w: WorldView, run: Entity)
    requires
        w.runs.turn_of.dom().finite(),
    ensures
        ({
            let turns = turns_of_run(w, run);
            &&& forall|i: int, j: int|
                0 <= i < j < turns.len() ==> (#[trigger] turns[i]).index <= (
                #[trigger] turns[j]).index
            &&& forall|e: Entity| #[trigger]
                w.runs.turn_of.contains_key(e) && w.runs.turn_of[e] == run
                    && w.runs.turns.contains_key(e) ==> turns.contains(w.runs.turns[e])
        }),
{
    let ids = sources_of(w.runs.turn_of, run);
    let pick = |e: Entity| turn_row(w, e);
    let rows = picked(ids, pick);
    let sorted = sort_rows(rows);
    let turns = turns_of_run(w, run);
    assert(turns == row_values(sorted));
    lemma_sort_rows(rows);
    rows.to_multiset_ensures();
    sorted.to_multiset_ensures();
    assert forall|k: int| 0 <= k < sorted.len() implies (#[trigger] sorted[k]).0 == seq![
        crate::sorting::KeyPartView::Number(turns[k].index as u64),
    ] by {
        assert(sorted.contains(sorted[k]));
        assert(sorted.to_multiset().count(sorted[k]) > 0);
        assert(rows.contains(sorted[k]));
        lemma_picked_members(ids, pick, sorted[k]);
        let i = choose|i: int| 0 <= i < ids.len() && #[trigger] pick(ids[i]) == Some(sorted[k]);
        assert(turn_row(w, ids[i]) == Some(sorted[k]));
    }
    assert forall|i: int, j: int| 0 <= i < j < turns.len() implies (#[trigger] turns[i]).index <= (
    #[trigger] turns[j]).index by {
        assert(key_le(sorted[i].0, sorted[j].0));
        reveal_with_fuel(key_le, 2);
        assert(sorted[i].0[0] == crate::sorting::KeyPartView::Number(turns[i].index as u64));
        assert(sorted[j].0[0] == crate::sorting::KeyPartView::Number(turns[j].index as u64));
    }
    assert forall|e: Entity| #[trigger]
        w.runs.turn_of.contains_key(e) && w.runs.turn_of[e] == run && w.runs.turns.contains_key(
            e,
        ) implies turns.contains(w.runs.turns[e]) by {
        lemma_sources(w.runs.turn_of, run, e);
        let m = choose|m: int| 0 <= m < ids.len() && ids[m] == e;
        let row = turn_row(w, e)->0;
        assert(pick(ids[m]) == Some(row));
        lemma_picked_members(ids, pick, row);
        assert(rows.contains(row));
        assert(rows.to_multiset().count(row) > 0);
        assert(sorted.contains(row));
        let k = choose|k: int| 0 <= k < sorted.len() && sorted[k] == row;
        assert(turns[k] == w.runs.turns[e]);
    }
}

/// A caller learns of a prompt what its run has come to: the output, with the whole transcript and
/// the usage of each turn, the error, or that it was cancelled; before that, and of a run that is
/// not known, nothing.
pub proof fn law_callers_learn_the_outcome(
    s: ScheduleView,
    pending: PendingRunHandleView,
    run: Entity,
)
    ensures
        ({
            let outcome = prompt_outcome(s, pending);
            let known = pending.runtime_id == s.handle.runtime_id
                && s.world.resources.index.contains_key(pending.stable_id)
                && s.world.resources.index[pending.stable_id] == run;
            let state = s.world.runs.states[run];
            &&& pending.runtime_id != s.handle.runtime_id
                || !s.world.resources.index.contains_key(pending.stable_id) ==> outcome == Ok::<
                Option<LocalRunResultView>,
                LocalAgentErrorView,
            >(None)
            &&& known && s.world.runs.states.contains_key(run) ==> {
                &&& state is Completed ==> {
                    &&& outcome is Ok
                    &&& outcome->Ok_0 is Some
                    &&& outcome->Ok_0->0.output == state->Completed_0
                    &&& s.world.runs.records.contains_key(run) ==> outcome->Ok_0->0.transcript
                        == s.world.runs.records[run].transcript
                    &&& outcome->Ok_0->0.completion_calls.len() == turns_of_run(
                        s.world,
                        run,
                    ).len()
                    &&& forall|i: int|
                        0 <= i < turns_of_run(s.world, run).len()
                            ==> outcome->Ok_0->0.completion_calls[i] == (
                        #[trigger] turns_of_run(s.world, run)[i]).output.usage
                }
                &&& state is Failed ==> outcome == Err::<
                    Option<LocalRunResultView>,
                    LocalAgentErrorView,
                >(LocalAgentErrorView::Canonical(state->Failed_0))
                &&& state is Cancelled ==> outcome == Err::<
                    Option<LocalRunResultView>,
                    LocalAgentErrorView,
                >(LocalAgentErrorView::Cancelled)
                &&& state is Queued || state is WaitingModel || state is WaitingTools || state
                    is WaitingStore ==> outcome == Ok::<
                    Option<LocalRunResultView>,
                    LocalAgentErrorView,
                >(None)
            }
        }),
{
}

/// Whether a usage is given with its total.
pub open spec fn has_total(usage: Usage, given: CompletionUsage) -> bool {
    &&& given.input_tokens == usage.input_tokens
    &&& given.output_tokens == usage.output_tokens
    &&& usage.input_tokens + usage.output_tokens <= u64::MAX ==> given.total_tokens
        == usage.input_tokens + usage.output_tokens
}

/// The response of a run holds its output and, in order and numbered, the usage of each model call,
/// each with its total.
pub proof fn law_responses_hold_the_run(
    output: RunOutputView,
    completion_calls: Seq<Usage>,
    messages: Option<Seq<MessageView>>,
)
    ensures
        ({
            let r = response_of_run(output, completion_calls, messages);
            &&& r.output == output.text
            &&& has_total(output.usage, r.usage)
            &&& r.messages == messages
            &&& r.completion_calls.len() == completion_calls.len()
            &&& forall|i: int|
                0 <= i < completion_calls.len() ==> has_total(
                    #[trigger] completion_calls[i],
                    r.completion_calls[i].usage,
                ) && (i <= usize::MAX ==> r.completion_calls[i].call_index == i)
        }),
{
}

/// What a provider streams reaches the caller as it was streamed, in whatever way it is told: a
/// text as a piece of the run, everything else at once.
pub proof fn law_streamed_items_reach_the_caller(
    item: StreamedAssistantContentView,
    messages: Option<Seq<MessageView>>,
)
    ensures
        match provider_step_of(item) {
            ProviderStepView::Delta(text) => {
                &&& item is Text
                &&& item_of(LocalStreamEventView::Delta(text), messages)
                    == MultiTurnStreamItemView::StreamAssistantItem(item)
            },
            ProviderStepView::Observed(tool_call, internal_call_id) => {
                &&& item is ToolCall
                &&& item_of(
                    LocalStreamEventView::ToolCall { tool_call, internal_call_id },
                    messages,
                ) == MultiTurnStreamItemView::StreamAssistantItem(item)
            },
            ProviderStepView::Event(event) => {
                &&& item is ToolCallDelta || item is Reasoning || item is ReasoningDelta || item
                    is Unknown
                &&& item_of(event, messages) == MultiTurnStreamItemView::StreamAssistantItem(item)
            },
            ProviderStepView::Nothing => item is Last,
        },
{
}

/// A result and an outcome reach the caller of a stream with all that is told of them.
pub proof fn law_told_results_reach_the_caller(
    event: LocalStreamEventView,
    messages: Option<Seq<MessageView>>,
)
    ensures
        event is ToolResult ==> item_of(event, messages)
            == (MultiTurnStreamItemView::StreamUserItem {
            tool_result: event->ToolResult_tool_result,
            internal_call_id: event->ToolResult_internal_call_id,
        }),
        event is ToolCommitted ==> item_of(event, messages)
            == (MultiTurnStreamItemView::ToolExecutionCommitted {
            tool_call: event->ToolCommitted_tool_call,
            internal_call_id: event->ToolCommitted_internal_call_id,
        }),
        event is Finished ==> {
            let item = item_of(event, messages);
            &&& item is FinalResponse
            &&& item->FinalResponse_0.output == event->output.text
            &&& item->FinalResponse_0.messages == messages
            &&& item->FinalResponse_0.completion_calls.len() == event->completion_calls.len()
        },
{
}

/// The executor of a capability is the first with its id and revision, where there is one.
pub proof fn law_executors_are_found_by_id_and_revision(
    keys: Seq<ExecutorKeyView>,
    id: Seq<char>,
    revision: u64,
    k: int,
)
    ensures
        0 <= k < keys.len() && keys[k].id == id && keys[k].revision == revision && (forall|j: int|
            0 <= j < k ==> !((#[trigger] keys[j]).id == id && keys[j].revision == revision))
            ==> executor_at(keys, id, revision, 0) == Some(k),
        (forall|j: int|
            0 <= j < keys.len() ==> !((#[trigger] keys[j]).id == id && keys[j].revision
                == revision)) ==> executor_at(keys, id, revision, 0) is None,
{
    lemma_executor(keys, id, revision, 0);
}

} // verus!
