//! What a run makes of the output of its model.

use vstd::prelude::*;

use crate::column::Entity;
use crate::commit_model::{
    commit_model_step, commit_models, first_call_of, first_repeated, first_unknown, repeats_earlier,
    tool_input_of, tool_inputs_of, tool_named, with_tool_operations, Reasons,
};
use crate::effect::{
    CanonicalErrorView, EffectOutputView, ModelEffectOutputView, ModelToolCallView, OperationKind,
    OperationOutcomeView, OperationPhaseView, RunOutputView, StoreOperationView, ToolDecisionView,
    ToolEffectInputView, TranscriptEntryView,
};
use crate::json::{
    embedded_json, json_front, json_parse, json_text, response_json, schema_refused,
    schema_violation, structured_output,
};
use crate::laws_commits::law_model_commits_reach_their_run_only;
use crate::run::RunStateView;
use crate::world::WorldView;

verus! {

/// Whether a value is what a text holds: the whole text, or else what can be read from the first
/// bracket from which something can be read.
pub open spec fn holds_value(text: Seq<char>, value: serde_json::Value) -> bool {
    ||| json_parse(text) == Ok::<serde_json::Value, Seq<char>>(value)
    ||| json_parse(text) is Err && exists|i: int| #[trigger] starts_value(text, i, value)
}

/// Whether the first value that can be read from a bracket of a text stands at a position.
pub open spec fn starts_value(text: Seq<char>, i: int, value: serde_json::Value) -> bool {
    &&& 0 <= i < text.len()
    &&& text[i] == '{' || text[i] == '['
    &&& json_front(text.subrange(i, text.len() as int)) == Some(value)
    &&& forall|j: int|
        0 <= j < i && (text[j] == '{' || text[j] == '[') ==> json_front(
            #[trigger] text.subrange(j, text.len() as int),
        ) is None
}

/// Whether a text holds no value.
pub open spec fn holds_nothing(text: Seq<char>) -> bool {
    &&& json_parse(text) is Err
    &&& forall|j: int|
        0 <= j < text.len() && (text[j] == '{' || text[j] == '[') ==> json_front(
            #[trigger] text.subrange(j, text.len() as int),
        ) is None
}

proof fn lemma_first_embedded(text: Seq<char>, from: int, i: int, value: serde_json::Value)
    requires
        0 <= from <= i,
        starts_value(text, i, value),
    ensures
        embedded_json(text, from) == Some(value),
    decreases i - from,
{
    if from < i {
        if text[from] == '{' || text[from] == '[' {
            assert(json_front(text.subrange(from, text.len() as int)) is None);
        }
        lemma_first_embedded(text, from + 1, i, value);
    }
}

proof fn lemma_nothing_embedded(text: Seq<char>, from: int)
    requires
        0 <= from,
        holds_nothing(text),
    ensures
        embedded_json(text, from) is None,
    decreases text.len() - from,
{
    if from < text.len() {
        if text[from] == '{' || text[from] == '[' {
            assert(json_front(text.subrange(from, text.len() as int)) is None);
        }
        lemma_nothing_embedded(text, from + 1);
    }
}

/// A response holds the value of its whole text, or else the first value that stands in it.
pub proof fn law_responses_hold_their_first_value(text: Seq<char>, value: serde_json::Value)
    ensures
        holds_value(text, value) ==> response_json(text) == Ok::<serde_json::Value, Seq<char>>(
            value,
        ),
        holds_nothing(text) ==> response_json(text) == Err::<serde_json::Value, Seq<char>>(
            json_parse(text)->Err_0,
        ),
{
    if holds_value(text, value) && json_parse(text) is Err {
        let i = choose|i: int| #[trigger] starts_value(text, i, value);
        lemma_first_embedded(text, 0, i, value);
    }
    if holds_nothing(text) {
        lemma_nothing_embedded(text, 0);
    }
}

/// A text is accepted exactly where it holds a value in which its schema, which is itself not
/// refused, finds no fault; each other text is refused with what is wrong with it.
pub proof fn law_outputs_are_judged_by_their_schema(
    schema: serde_json::Value,
    text: Seq<char>,
    value: serde_json::Value,
    reason: Seq<char>,
)
    ensures
        holds_nothing(text) ==> structured_output(schema, text, reason) == Err::<
            (),
            CanonicalErrorView,
        >(
            CanonicalErrorView::InvalidStructuredOutput(
                "response was not JSON: "@ + json_parse(text)->Err_0,
            ),
        ),
        holds_value(text, value) && schema_refused(schema) ==> structured_output(
            schema,
            text,
            reason,
        ) == Err::<(), CanonicalErrorView>(
            CanonicalErrorView::InvalidStructuredOutput("invalid output schema: "@ + reason),
        ),
        holds_value(text, value) && !schema_refused(schema) && schema_violation(schema, value)
            is Some ==> structured_output(schema, text, reason) == Err::<(), CanonicalErrorView>(
            CanonicalErrorView::InvalidStructuredOutput(
                "schema validation failed: "@ + schema_violation(schema, value)->0,
            ),
        ),
        holds_value(text, value) && !schema_refused(schema) && schema_violation(schema, value)
            is None ==> structured_output(schema, text, reason) == Ok::<(), CanonicalErrorView>(()),
{
    law_responses_hold_their_first_value(text, value);
}

/// Whether a text satisfies a schema, where there is one.
pub open spec fn satisfies(schema: Option<serde_json::Value>, text: Seq<char>) -> bool {
    match schema {
        Some(schema) => !schema_refused(schema) && exists|value: serde_json::Value| #[trigger]
            holds_value(text, value) && schema_violation(schema, value) is None,
        None => true,
    }
}

proof fn lemma_satisfies(schema: serde_json::Value, text: Seq<char>, reason: Seq<char>)
    requires
        satisfies(Some(schema), text),
    ensures
        structured_output(schema, text, reason) is Ok,
{
    let value = choose|value: serde_json::Value| #[trigger]
        holds_value(text, value) && schema_violation(schema, value) is None;
    law_outputs_are_judged_by_their_schema(schema, text, value, reason);
}

/// Whether a run waits for a model operation, and the operation is settled.
pub open spec fn model_settled(
    w: WorldView,
    operation: Entity,
    run: Entity,
    outcome: OperationOutcomeView,
) -> bool {
    &&& operation.0 < w.next
    &&& w.operations.model_inputs.dom().finite()
    &&& w.operations.model_inputs.contains_key(operation)
    &&& w.operations.operation_of.contains_key(operation)
    &&& w.operations.operation_of[operation] == run
    &&& w.operations.states.contains_key(operation)
    &&& w.operations.states[operation].phase == OperationPhaseView::Settled(outcome)
    &&& w.runs.states.contains_key(run)
    &&& w.runs.states[run] == (RunStateView::WaitingModel { operation })
    &&& w.runs.records.contains_key(run)
}

/// Whether a run waits for a model operation that is settled with an output whose calls have
/// different ids.
pub open spec fn model_answered(
    w: WorldView,
    operation: Entity,
    run: Entity,
    output: ModelEffectOutputView,
) -> bool {
    &&& model_settled(
        w,
        operation,
        run,
        OperationOutcomeView::Success(EffectOutputView::Model(output)),
    )
    &&& forall|i: int, j: int|
        0 <= i < j < output.tool_calls.len() ==> (#[trigger] output.tool_calls[i]).id != (
        #[trigger] output.tool_calls[j]).id
}

/// Whether a run has a final output: it is complete with it, or, where it has a conversation and a
/// store for it, waits for the store while the output is pending.
pub open spec fn has_final_output(
    w: WorldView,
    v: WorldView,
    run: Entity,
    text: Seq<char>,
) -> bool {
    let record = w.runs.records[run];
    if record.conversation is Some && record.memory_store is Some {
        &&& v.runs.states[run] is WaitingStore
        &&& v.runs.records[run].pending_output == Some(
            RunOutputView { text, usage: v.runs.records[run].usage },
        )
    } else {
        v.runs.states[run] == RunStateView::Completed(
            RunOutputView { text, usage: v.runs.records[run].usage },
        )
    }
}

proof fn lemma_distinct_ids(calls: Seq<ModelToolCallView>, from: int)
    requires
        0 <= from,
        forall|i: int, j: int|
            0 <= i < j < calls.len() ==> (#[trigger] calls[i]).id != (#[trigger] calls[j]).id,
    ensures
        first_repeated(calls, from) is None,
    decreases calls.len() - from,
{
    if from < calls.len() {
        assert(!repeats_earlier(calls, from));
        lemma_distinct_ids(calls, from + 1);
    }
}

proof fn lemma_first_call(calls: Seq<ModelToolCallView>, name: Seq<char>, from: int, k: int)
    requires
        0 <= from <= k < calls.len(),
        calls[k].name == name,
        forall|j: int| 0 <= j < k ==> (#[trigger] calls[j]).name != name,
    ensures
        first_call_of(calls, name, from) == Some(calls[k]),
    decreases k - from,
{
    if from < k {
        lemma_first_call(calls, name, from + 1, k);
    }
}

proof fn lemma_no_call(calls: Seq<ModelToolCallView>, name: Seq<char>, from: int)
    requires
        0 <= from,
        forall|j: int| 0 <= j < calls.len() ==> (#[trigger] calls[j]).name != name,
    ensures
        first_call_of(calls, name, from) is None,
    decreases calls.len() - from,
{
    if from < calls.len() {
        lemma_no_call(calls, name, from + 1);
    }
}

/// A call of the terminal tool ends the run with the arguments of its first call, whatever text
/// comes with it.
pub proof fn law_terminal_calls_are_the_final_output(
    w: WorldView,
    operation: Entity,
    run: Entity,
    output: ModelEffectOutputView,
    name: Seq<char>,
    k: int,
    reasons: Reasons,
)
    requires
        model_answered(w, operation, run, output),
        w.operations.model_inputs[operation].terminal_tool == Some(name),
        0 <= k < output.tool_calls.len(),
        output.tool_calls[k].name == name,
        forall|j: int| 0 <= j < k ==> (#[trigger] output.tool_calls[j]).name != name,
        satisfies(
            w.operations.model_inputs[operation].output_schema,
            json_text(output.tool_calls[k].arguments),
        ),
    ensures
        has_final_output(
            w,
            commit_models(w, reasons),
            run,
            json_text(output.tool_calls[k].arguments),
        ),
{
    law_model_commits_reach_their_run_only(w, operation, reasons);
    lemma_distinct_ids(output.tool_calls, 0);
    lemma_first_call(output.tool_calls, name, 0, k);
    let text = json_text(output.tool_calls[k].arguments);
    if let Some(schema) = w.operations.model_inputs[operation].output_schema {
        lemma_satisfies(schema, text, reasons[operation]);
    }
}

/// An output without calls ends the run with its text, unless a terminal tool is named.
pub proof fn law_texts_are_the_final_output(
    w: WorldView,
    operation: Entity,
    run: Entity,
    output: ModelEffectOutputView,
    reasons: Reasons,
)
    requires
        model_answered(w, operation, run, output),
        output.tool_calls.len() == 0,
        match w.operations.model_inputs[operation].terminal_tool {
            Some(name) => name.len() == 0,
            None => true,
        },
        satisfies(w.operations.model_inputs[operation].output_schema, output.text),
    ensures
        has_final_output(w, commit_models(w, reasons), run, output.text),
{
    law_model_commits_reach_their_run_only(w, operation, reasons);
    lemma_distinct_ids(output.tool_calls, 0);
    if let Some(schema) = w.operations.model_inputs[operation].output_schema {
        lemma_satisfies(schema, output.text, reasons[operation]);
    }
}

/// An output without calls, where a terminal tool is named, ends the run with an empty text that
/// no schema is held against.
pub proof fn law_without_the_terminal_call_the_output_is_empty(
    w: WorldView,
    operation: Entity,
    run: Entity,
    output: ModelEffectOutputView,
    name: Seq<char>,
    reasons: Reasons,
)
    requires
        model_answered(w, operation, run, output),
        output.tool_calls.len() == 0,
        w.operations.model_inputs[operation].terminal_tool == Some(name),
        name.len() > 0,
    ensures
        has_final_output(w, commit_models(w, reasons), run, Seq::empty()),
{
    law_model_commits_reach_their_run_only(w, operation, reasons);
    lemma_distinct_ids(output.tool_calls, 0);
}

/// A final text in which the schema of the run finds a fault fails the run with that fault.
pub proof fn law_faulty_outputs_fail_the_run(
    w: WorldView,
    operation: Entity,
    run: Entity,
    output: ModelEffectOutputView,
    schema: serde_json::Value,
    value: serde_json::Value,
    reasons: Reasons,
)
    requires
        model_answered(w, operation, run, output),
        output.tool_calls.len() == 0,
        match w.operations.model_inputs[operation].terminal_tool {
            Some(name) => name.len() == 0,
            None => true,
        },
        w.operations.model_inputs[operation].output_schema == Some(schema),
        !schema_refused(schema),
    ensures
        holds_value(output.text, value) && schema_violation(schema, value) is Some
            ==> commit_models(w, reasons).runs.states[run] == RunStateView::Failed(
            CanonicalErrorView::InvalidStructuredOutput(
                "schema validation failed: "@ + schema_violation(schema, value)->0,
            ),
        ),
        holds_nothing(output.text) ==> commit_models(w, reasons).runs.states[run]
            == RunStateView::Failed(
            CanonicalErrorView::InvalidStructuredOutput(
                "response was not JSON: "@ + json_parse(output.text)->Err_0,
            ),
        ),
{
    law_model_commits_reach_their_run_only(w, operation, reasons);
    lemma_distinct_ids(output.tool_calls, 0);
    law_outputs_are_judged_by_their_schema(schema, output.text, value, reasons[operation]);
}

/// Tokens that are counted together: their sum, or as many as can be counted.
pub open spec fn counts_together(a: u64, b: u64, sum: u64) -> bool {
    sum as int == if a + b <= u64::MAX {
        a + b
    } else {
        u64::MAX as int
    }
}

/// An output with calls of different ids is entered in the record of its run: its tokens are
/// counted, its turn is over, and it stands behind the transcript, as the message of the provider,
/// or else as its text and then its calls in their order.
pub proof fn law_outputs_are_recorded(
    w: WorldView,
    operation: Entity,
    run: Entity,
    output: ModelEffectOutputView,
    reasons: Reasons,
)
    requires
        model_answered(w, operation, run, output),
    ensures
        ({
            let old = w.runs.records[run];
            let new = commit_models(w, reasons).runs.records[run];
            let n = old.transcript.len();
            &&& counts_together(
                old.usage.input_tokens,
                output.usage.input_tokens,
                new.usage.input_tokens,
            )
            &&& counts_together(
                old.usage.output_tokens,
                output.usage.output_tokens,
                new.usage.output_tokens,
            )
            &&& old.next_turn < u32::MAX ==> new.next_turn == old.next_turn + 1
            &&& old.next_turn == u32::MAX ==> new.next_turn == u32::MAX
            &&& new.transcript.take(n as int) == old.transcript
            &&& match output.assistant_message {
                Some(message) => {
                    &&& new.transcript.len() == n + 1
                    &&& new.transcript[n as int] == TranscriptEntryView::AssistantMessage(message)
                },
                None => {
                    &&& new.transcript.len() == n + 1 + output.tool_calls.len()
                    &&& new.transcript[n as int] == TranscriptEntryView::Assistant(output.text)
                    &&& forall|i: int|
                        #![trigger output.tool_calls[i]]
                        0 <= i < output.tool_calls.len() ==> new.transcript[n + 1 + i]
                            == (TranscriptEntryView::AssistantToolCall {
                            call_id: output.tool_calls[i].id,
                            name: output.tool_calls[i].name,
                            arguments: output.tool_calls[i].arguments,
                        })
                },
            }
            &&& new.prompt == old.prompt
            &&& new.prompt_text == old.prompt_text
            &&& new.conversation == old.conversation
            &&& new.memory_store == old.memory_store
            &&& new.retrieved_documents == old.retrieved_documents
        }),
{
    law_model_commits_reach_their_run_only(w, operation, reasons);
    lemma_distinct_ids(output.tool_calls, 0);
    let one = commit_model_step(w, operation, reasons[operation]);
    assert forall|u: WorldView, r: Entity, batch: Entity, inputs: Seq<ToolEffectInputView>|
        #![trigger with_tool_operations(u, r, batch, inputs)]
        with_tool_operations(u, r, batch, inputs).runs == u.runs by {
        lemma_tool_operations(u, r, batch, inputs);
    }
    let old = w.runs.records[run];
    assert(one.runs.records[run].transcript.take(old.transcript.len() as int)
        =~= old.transcript);
}

/// An operation that failed fails its run with its error, and one with an output of another kind
/// fails it as a mismatch. Nothing is recorded.
pub proof fn law_failed_models_fail_the_run(
    w: WorldView,
    operation: Entity,
    run: Entity,
    outcome: OperationOutcomeView,
    reasons: Reasons,
)
    requires
        model_settled(w, operation, run, outcome),
        match outcome {
            OperationOutcomeView::Success(EffectOutputView::Model(_)) => false,
            _ => true,
        },
    ensures
        commit_models(w, reasons).runs.states[run] == RunStateView::Failed(
            match outcome {
                OperationOutcomeView::Failure(error) => error,
                OperationOutcomeView::Success(_) => CanonicalErrorView::EffectKindMismatch,
            },
        ),
        commit_models(w, reasons).runs.records[run] == w.runs.records[run],
{
    law_model_commits_reach_their_run_only(w, operation, reasons);
}

/// A repeated id is that of the first call that has the id of an earlier one.
pub proof fn law_the_first_repeated_id_is_reported(
    w: WorldView,
    operation: Entity,
    run: Entity,
    output: ModelEffectOutputView,
    k: int,
    reasons: Reasons,
)
    requires
        model_settled(
            w,
            operation,
            run,
            OperationOutcomeView::Success(EffectOutputView::Model(output)),
        ),
        0 <= k < output.tool_calls.len(),
        exists|j: int| 0 <= j < k && (#[trigger] output.tool_calls[j]).id == output.tool_calls[k].id,
        forall|i: int, j: int|
            0 <= i < j < k ==> (#[trigger] output.tool_calls[i]).id != (
            #[trigger] output.tool_calls[j]).id,
    ensures
        commit_models(w, reasons).runs.states[run] == RunStateView::Failed(
            CanonicalErrorView::DuplicateToolCall(output.tool_calls[k].id),
        ),
        commit_models(w, reasons).runs.records[run] == w.runs.records[run],
{
    law_model_commits_reach_their_run_only(w, operation, reasons);
    lemma_repeated_at(output.tool_calls, 0, k);
}

proof fn lemma_repeated_at(calls: Seq<ModelToolCallView>, from: int, k: int)
    requires
        0 <= from <= k < calls.len(),
        exists|j: int| 0 <= j < k && (#[trigger] calls[j]).id == calls[k].id,
        forall|i: int, j: int|
            0 <= i < j < k ==> (#[trigger] calls[i]).id != (#[trigger] calls[j]).id,
    ensures
        first_repeated(calls, from) == Some(calls[k].id),
    decreases k - from,
{
    if from < k {
        assert(!repeats_earlier(calls, from));
        lemma_repeated_at(calls, from + 1, k);
    } else {
        assert(repeats_earlier(calls, k));
    }
}

/// Whether an entity is a prepared operation of a batch with an input.
spec fn carries_out(
    w: WorldView,
    e: Entity,
    run: Entity,
    batch: Entity,
    input: ToolEffectInputView,
) -> bool {
    &&& w.operations.kinds.contains_key(e)
    &&& w.operations.kinds[e] == OperationKind::Tool
    &&& w.operations.states.contains_key(e)
    &&& w.operations.states[e].phase is Prepared
    &&& w.operations.operation_of.contains_key(e)
    &&& w.operations.operation_of[e] == run
    &&& w.operations.operation_of_batch.contains_key(e)
    &&& w.operations.operation_of_batch[e] == batch
    &&& w.operations.tool_inputs.contains_key(e)
    &&& w.operations.tool_inputs[e] == input
}

/// The operations that are made for inputs have them in their order.
proof fn lemma_tool_operations(
    w: WorldView,
    run: Entity,
    batch: Entity,
    inputs: Seq<ToolEffectInputView>,
)
    ensures
        with_tool_operations(w, run, batch, inputs).runs == w.runs,
        with_tool_operations(w, run, batch, inputs).operations.batches == w.operations.batches,
        with_tool_operations(w, run, batch, inputs).operations.batch_of == w.operations.batch_of,
        w.next + inputs.len() <= u64::MAX ==> with_tool_operations(w, run, batch, inputs).next
            == w.next + inputs.len() && forall|i: int|
            #![trigger inputs[i]]
            0 <= i < inputs.len() ==> carries_out(
                with_tool_operations(w, run, batch, inputs),
                Entity((w.next + i) as u64),
                run,
                batch,
                inputs[i],
            ),
    decreases inputs.len(),
{
    if inputs.len() > 0 {
        let front = inputs.drop_last();
        lemma_tool_operations(w, run, batch, front);
        if w.next + inputs.len() <= u64::MAX {
            let before = with_tool_operations(w, run, batch, front);
            assert forall|i: int| #![trigger inputs[i]] 0 <= i < inputs.len() implies carries_out(
                with_tool_operations(w, run, batch, inputs),
                Entity((w.next + i) as u64),
                run,
                batch,
                inputs[i],
            ) by {
                if i < front.len() {
                    assert(front[i] == inputs[i]);
                    assert(carries_out(
                        before,
                        Entity((w.next + i) as u64),
                        run,
                        batch,
                        front[i],
                    ));
                }
            }
        }
    }
}

proof fn lemma_tool_known(tools: Seq<ToolDecisionView>, name: Seq<char>, from: int)
    requires
        0 <= from,
        exists|j: int| from <= j < tools.len() && (#[trigger] tools[j]).name == name,
    ensures
        tool_named(tools, name, from) is Some,
        tool_named(tools, name, from)->0.name == name,
        tools.contains(tool_named(tools, name, from)->0),
    decreases tools.len() - from,
{
    let j = choose|j: int| from <= j < tools.len() && (#[trigger] tools[j]).name == name;
    if tools[from].name != name {
        lemma_tool_known(tools, name, from + 1);
    }
}

proof fn lemma_none_unknown(
    tools: Seq<ToolDecisionView>,
    calls: Seq<ModelToolCallView>,
    from: int,
)
    requires
        0 <= from,
        forall|i: int|
            0 <= i < calls.len() ==> exists|j: int|
                0 <= j < tools.len() && (#[trigger] tools[j]).name == (#[trigger] calls[i]).name,
    ensures
        first_unknown(tools, calls, from) is None,
    decreases calls.len() - from,
{
    if from < calls.len() {
        assert(exists|j: int|
            0 <= j < tools.len() && (#[trigger] tools[j]).name == calls[from].name);
        lemma_tool_known(tools, calls[from].name, 0);
        lemma_none_unknown(tools, calls, from + 1);
    }
}

/// Calls of tools that are on offer, none of them the terminal tool, become a batch for which the
/// run waits. It has an operation for each call, in their order: the tool on offer under the name
/// of the call, with the ids and the arguments of the call and its position among the calls. (The
/// entities must have numbers left.)
pub proof fn law_calls_become_a_batch(
    w: WorldView,
    operation: Entity,
    run: Entity,
    output: ModelEffectOutputView,
    reason: Seq<char>,
)
    requires
        model_answered(w, operation, run, output),
        0 < output.tool_calls.len() <= u32::MAX,
        w.next + output.tool_calls.len() + 2 <= u64::MAX,
        forall|i: int|
            0 <= i < output.tool_calls.len() ==> w.operations.model_inputs[operation].terminal_tool
                != Some((#[trigger] output.tool_calls[i]).name),
        forall|i: int|
            0 <= i < output.tool_calls.len() ==> exists|j: int|
                0 <= j < w.operations.model_inputs[operation].tools.len() && (
                #[trigger] w.operations.model_inputs[operation].tools[j]).name == (
                #[trigger] output.tool_calls[i]).name,
    ensures
        ({
            let t = commit_model_step(w, operation, reason);
            let tools = w.operations.model_inputs[operation].tools;
            let batch = t.runs.states[run]->WaitingTools_batch;
            &&& t.runs.states[run] is WaitingTools
            &&& batch.0 >= w.next
            &&& t.operations.batches.contains_key(batch)
            &&& t.operations.batches[batch].source_model_operation == operation
            &&& t.operations.batches[batch].expected == output.tool_calls.len()
            &&& !t.operations.batches[batch].committed
            &&& t.operations.batch_of.contains_key(batch)
            &&& t.operations.batch_of[batch] == run
            &&& forall|i: int|
                #![trigger output.tool_calls[i]]
                0 <= i < output.tool_calls.len() ==> {
                    let e = Entity((batch.0 + 1 + i) as u64);
                    let call = output.tool_calls[i];
                    &&& t.operations.kinds[e] == OperationKind::Tool
                    &&& t.operations.states[e].phase is Prepared
                    &&& t.operations.operation_of[e] == run
                    &&& t.operations.operation_of_batch[e] == batch
                    &&& t.operations.tool_inputs[e].call_id == call.id
                    &&& t.operations.tool_inputs[e].provider_result_id == call.provider_result_id
                    &&& t.operations.tool_inputs[e].provider_call_id == call.provider_call_id
                    &&& t.operations.tool_inputs[e].arguments == call.arguments
                    &&& t.operations.tool_inputs[e].index == i
                    &&& t.operations.tool_inputs[e].decision.name == call.name
                    &&& tools.contains(t.operations.tool_inputs[e].decision)
                }
        }),
{
    let input = w.operations.model_inputs[operation];
    let calls = output.tool_calls;
    lemma_distinct_ids(calls, 0);
    if let Some(name) = input.terminal_tool {
        assert forall|j: int| 0 <= j < calls.len() implies (#[trigger] calls[j]).name != name by {
            assert(input.terminal_tool != Some(calls[j].name));
        }
        lemma_no_call(calls, name, 0);
    }
    lemma_none_unknown(input.tools, calls, 0);
    let t = commit_model_step(w, operation, reason);
    let inputs = tool_inputs_of(input.tools, calls);
    assert forall|u: WorldView, r: Entity, batch: Entity|
        #![trigger with_tool_operations(u, r, batch, inputs)]
        with_tool_operations(u, r, batch, inputs).runs == u.runs by {
        lemma_tool_operations(u, r, batch, inputs);
    }
    let record = crate::commit_model::committed_record(w.runs.records[run], output);
    let turn = crate::run::CommittedTurnView { index: w.runs.records[run].next_turn, output };
    let committed = w.with_run_record(run, record).with_turn(run, turn);
    let batch = committed.fresh();
    let state = crate::run::ToolBatchState {
        source_model_operation: operation,
        expected: crate::numeric::clamped(inputs.len()),
        committed: false,
    };
    lemma_tool_operations(committed.with_batch(run, state), run, batch, inputs);
    assert(t.runs.states[run] == (RunStateView::WaitingTools { batch }));
    assert forall|i: int| #![trigger calls[i]] 0 <= i < calls.len() implies {
        let e = Entity((batch.0 + 1 + i) as u64);
        &&& t.operations.tool_inputs[e] == inputs[i]
        &&& t.operations.kinds[e] == OperationKind::Tool
        &&& t.operations.states[e].phase is Prepared
        &&& t.operations.operation_of[e] == run
        &&& t.operations.operation_of_batch[e] == batch
        &&& inputs[i].index == i
        &&& inputs[i].decision.name == calls[i].name
        &&& input.tools.contains(inputs[i].decision)
    } by {
        assert(inputs[i] == tool_input_of(input.tools, calls, i));
        assert(carries_out(t, Entity((batch.0 + 1 + i) as u64), run, batch, inputs[i]));
        assert(exists|j: int|
            0 <= j < input.tools.len() && (#[trigger] input.tools[j]).name == calls[i].name);
        lemma_tool_known(input.tools, calls[i].name, 0);
    }
}

/// The turn that a model has finished is kept under the number that it had, with its whole output.
pub proof fn law_turns_keep_their_output(
    w: WorldView,
    operation: Entity,
    run: Entity,
    output: ModelEffectOutputView,
    reason: Seq<char>,
)
    requires
        model_answered(w, operation, run, output),
    ensures
        ({
            let t = commit_model_step(w, operation, reason);
            &&& t.runs.turn_of.contains_key(w.fresh())
            &&& t.runs.turn_of[w.fresh()] == run
            &&& t.runs.turns.contains_key(w.fresh())
            &&& t.runs.turns[w.fresh()].index == w.runs.records[run].next_turn
            &&& t.runs.turns[w.fresh()].output == output
        }),
{
    lemma_distinct_ids(output.tool_calls, 0);
    assert forall|u: WorldView, r: Entity, batch: Entity, inputs: Seq<ToolEffectInputView>|
        #![trigger with_tool_operations(u, r, batch, inputs)]
        with_tool_operations(u, r, batch, inputs).runs == u.runs by {
        lemma_tool_operations(u, r, batch, inputs);
    }
}

/// What is asked of the store before a run is complete: to persist the whole transcript of the
/// run, with the output in it, under its conversation. (The entities must have numbers left.)
pub proof fn law_the_whole_transcript_is_persisted(
    w: WorldView,
    operation: Entity,
    run: Entity,
    output: ModelEffectOutputView,
    reason: Seq<char>,
)
    requires
        model_answered(w, operation, run, output),
        w.next + 2 <= u64::MAX,
        commit_model_step(w, operation, reason).runs.states[run] is WaitingStore,
    ensures
        ({
            let t = commit_model_step(w, operation, reason);
            let store = t.runs.states[run]->WaitingStore_operation;
            let record = w.runs.records[run];
            &&& store.0 >= w.next
            &&& t.operations.kinds[store] == OperationKind::Store
            &&& t.operations.operation_of[store] == run
            &&& t.operations.states[store].phase is Prepared
            &&& t.operations.store_inputs.contains_key(store)
            &&& Some(t.operations.store_inputs[store].decision) == record.memory_store
            &&& t.operations.store_inputs[store].operation
                == (StoreOperationView::PersistConversation {
                conversation: record.conversation->0,
                entries: t.runs.records[run].transcript,
            })
        }),
{
    lemma_distinct_ids(output.tool_calls, 0);
    assert forall|u: WorldView, r: Entity, batch: Entity, inputs: Seq<ToolEffectInputView>|
        #![trigger with_tool_operations(u, r, batch, inputs)]
        with_tool_operations(u, r, batch, inputs).runs == u.runs by {
        lemma_tool_operations(u, r, batch, inputs);
    }
}

/// The arguments of a terminal call in which the schema of the run finds a fault fail the run with
/// that fault.
pub proof fn law_faulty_terminal_calls_fail_the_run(
    w: WorldView,
    operation: Entity,
    run: Entity,
    output: ModelEffectOutputView,
    name: Seq<char>,
    k: int,
    schema: serde_json::Value,
    value: serde_json::Value,
    reasons: Reasons,
)
    requires
        model_answered(w, operation, run, output),
        w.operations.model_inputs[operation].terminal_tool == Some(name),
        0 <= k < output.tool_calls.len(),
        output.tool_calls[k].name == name,
        forall|j: int| 0 <= j < k ==> (#[trigger] output.tool_calls[j]).name != name,
        w.operations.model_inputs[operation].output_schema == Some(schema),
        !schema_refused(schema),
        holds_value(json_text(output.tool_calls[k].arguments), value),
        schema_violation(schema, value) is Some,
    ensures
        commit_models(w, reasons).runs.states[run] == RunStateView::Failed(
            CanonicalErrorView::InvalidStructuredOutput(
                "schema validation failed: "@ + schema_violation(schema, value)->0,
            ),
        ),
{
    law_model_commits_reach_their_run_only(w, operation, reasons);
    lemma_distinct_ids(output.tool_calls, 0);
    lemma_first_call(output.tool_calls, name, 0, k);
    law_outputs_are_judged_by_their_schema(
        schema,
        json_text(output.tool_calls[k].arguments),
        value,
        reasons[operation],
    );
}

proof fn lemma_unknown_at(
    tools: Seq<ToolDecisionView>,
    calls: Seq<ModelToolCallView>,
    from: int,
    k: int,
)
    requires
        0 <= from <= k < calls.len(),
        forall|j: int| 0 <= j < tools.len() ==> (#[trigger] tools[j]).name != calls[k].name,
        forall|i: int|
            0 <= i < k ==> exists|j: int|
                0 <= j < tools.len() && (#[trigger] tools[j]).name == (#[trigger] calls[i]).name,
    ensures
        first_unknown(tools, calls, from) == Some(calls[k].name),
    decreases k - from,
{
    if from < k {
        assert(exists|j: int|
            0 <= j < tools.len() && (#[trigger] tools[j]).name == calls[from].name);
        lemma_tool_known(tools, calls[from].name, 0);
        lemma_unknown_at(tools, calls, from + 1, k);
    } else {
        lemma_tool_unknown(tools, calls[k].name, 0);
    }
}

proof fn lemma_tool_unknown(tools: Seq<ToolDecisionView>, name: Seq<char>, from: int)
    requires
        0 <= from,
        forall|j: int| 0 <= j < tools.len() ==> (#[trigger] tools[j]).name != name,
    ensures
        tool_named(tools, name, from) is None,
    decreases tools.len() - from,
{
    if from < tools.len() {
        lemma_tool_unknown(tools, name, from + 1);
    }
}

/// The first call of a tool that is not on offer fails the run, with the name of the tool, where no
/// call is one of the terminal tool.
pub proof fn law_the_first_unknown_tool_is_reported(
    w: WorldView,
    operation: Entity,
    run: Entity,
    output: ModelEffectOutputView,
    k: int,
    reasons: Reasons,
)
    requires
        model_answered(w, operation, run, output),
        0 <= k < output.tool_calls.len(),
        forall|i: int|
            0 <= i < output.tool_calls.len() ==> w.operations.model_inputs[operation].terminal_tool
                != Some((#[trigger] output.tool_calls[i]).name),
        forall|j: int|
            0 <= j < w.operations.model_inputs[operation].tools.len() ==> (
            #[trigger] w.operations.model_inputs[operation].tools[j]).name
                != output.tool_calls[k].name,
        forall|i: int|
            0 <= i < k ==> exists|j: int|
                0 <= j < w.operations.model_inputs[operation].tools.len() && (
                #[trigger] w.operations.model_inputs[operation].tools[j]).name == (
                #[trigger] output.tool_calls[i]).name,
    ensures
        commit_models(w, reasons).runs.states[run] == RunStateView::Failed(
            CanonicalErrorView::UnknownTool(output.tool_calls[k].name),
        ),
{
    let input = w.operations.model_inputs[operation];
    let calls = output.tool_calls;
    law_model_commits_reach_their_run_only(w, operation, reasons);
    lemma_distinct_ids(calls, 0);
    if let Some(name) = input.terminal_tool {
        assert forall|j: int| 0 <= j < calls.len() implies (#[trigger] calls[j]).name != name by {
            assert(input.terminal_tool != Some(calls[j].name));
        }
        lemma_no_call(calls, name, 0);
    }
    lemma_unknown_at(input.tools, calls, 0, k);
}

} // verus!
