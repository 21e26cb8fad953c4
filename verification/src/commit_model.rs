//! Commit of settled model operations.

use vstd::prelude::*;

use crate::column::{entities_of, strictly_ascending, Entity};
use crate::fold::lemma_fold_next;
use crate::effect::{
    CanonicalError, CanonicalErrorView, EffectOutput, EffectOutputView, ModelEffectInput,
    ModelEffectInputView, ModelEffectOutput, ModelEffectOutputView, ModelToolCall,
    ModelToolCallView, OperationOutcome, OperationOutcomeView, OperationPhase, RunOutput,
    RunOutputView, StoreEffectInput, StoreEffectInputView, StoreOperation, StoreOperationView,
    ToolDecision, ToolDecisionView, ToolEffectInput, ToolEffectInputView, TranscriptEntry,
    TranscriptEntryView, Usage,
};
use crate::json::{
    json_text, output_error, print_json, schema_refused, structured_output,
    validate_structured_output,
};
use crate::numeric::{clamp, clamped, saturating_sum};
use crate::run::{
    CommittedTurn, CommittedTurnView, RunRecord, RunRecordView, RunState, RunStateView,
    ToolBatchState,
};
use crate::world::{World, WorldView};

verus! {

/// Whether an earlier call has the id of the call at `i`.
pub open spec fn repeats_earlier(calls: Seq<ModelToolCallView>, i: int) -> bool {
    exists|j: int| 0 <= j < i && (#[trigger] calls[j]).id == calls[i].id
}

/// Id of the first call at `from` or later whose id an earlier call has too.
pub open spec fn first_repeated(calls: Seq<ModelToolCallView>, from: int) -> Option<Seq<char>>
    decreases calls.len() - from,
{
    if from < 0 || from >= calls.len() {
        None
    } else if repeats_earlier(calls, from) {
        Some(calls[from].id)
    } else {
        first_repeated(calls, from + 1)
    }
}

/// The transcript entries of a tool call that a model asks for.
pub open spec fn call_entries(calls: Seq<ModelToolCallView>) -> Seq<TranscriptEntryView> {
    Seq::new(
        calls.len(),
        |i: int|
            TranscriptEntryView::AssistantToolCall {
                call_id: calls[i].id,
                name: calls[i].name,
                arguments: calls[i].arguments,
            },
    )
}

/// The transcript entries of a model output.
pub open spec fn output_entries(output: ModelEffectOutputView) -> Seq<TranscriptEntryView> {
    match output.assistant_message {
        Some(message) => seq![TranscriptEntryView::AssistantMessage(message)],
        None => seq![TranscriptEntryView::Assistant(output.text)] + call_entries(output.tool_calls),
    }
}

/// The record of a run once a model output was committed to it.
pub open spec fn committed_record(
    record: RunRecordView,
    output: ModelEffectOutputView,
) -> RunRecordView {
    RunRecordView {
        usage: Usage {
            input_tokens: saturating_sum(record.usage.input_tokens, output.usage.input_tokens),
            output_tokens: saturating_sum(record.usage.output_tokens, output.usage.output_tokens),
        },
        transcript: record.transcript + output_entries(output),
        next_turn: if record.next_turn == u32::MAX {
            u32::MAX
        } else {
            (record.next_turn + 1) as u32
        },
        ..record
    }
}

/// Whether an input names a tool whose arguments end the run.
pub open spec fn names_terminal_tool(input: ModelEffectInputView) -> bool {
    input.terminal_tool is Some && input.terminal_tool->0.len() > 0
}

/// First call at `from` or later of the tool with the given name.
pub open spec fn first_call_of(
    calls: Seq<ModelToolCallView>,
    name: Seq<char>,
    from: int,
) -> Option<ModelToolCallView>
    decreases calls.len() - from,
{
    if from < 0 || from >= calls.len() {
        None
    } else if calls[from].name == name {
        Some(calls[from])
    } else {
        first_call_of(calls, name, from + 1)
    }
}

/// The text with which a model output ends its run, and whether a schema applies to it; nothing
/// where the run goes on with tool calls.
pub open spec fn terminal_text(
    input: ModelEffectInputView,
    output: ModelEffectOutputView,
) -> Option<(Seq<char>, bool)> {
    if output.tool_calls.len() == 0 {
        if names_terminal_tool(input) {
            Some((Seq::empty(), false))
        } else {
            Some((output.text, true))
        }
    } else {
        match input.terminal_tool {
            Some(name) => match first_call_of(output.tool_calls, name, 0) {
                Some(call) => Some((json_text(call.arguments), true)),
                None => None,
            },
            None => None,
        }
    }
}

/// First tool at `from` or later with the given name.
pub open spec fn tool_named(tools: Seq<ToolDecisionView>, name: Seq<char>, from: int) -> Option<
    ToolDecisionView,
>
    decreases tools.len() - from,
{
    if from < 0 || from >= tools.len() {
        None
    } else if tools[from].name == name {
        Some(tools[from])
    } else {
        tool_named(tools, name, from + 1)
    }
}

/// Name of the first call at `from` or later whose tool was not offered.
pub open spec fn first_unknown(
    tools: Seq<ToolDecisionView>,
    calls: Seq<ModelToolCallView>,
    from: int,
) -> Option<Seq<char>>
    decreases calls.len() - from,
{
    if from < 0 || from >= calls.len() {
        None
    } else if tool_named(tools, calls[from].name, 0) is None {
        Some(calls[from].name)
    } else {
        first_unknown(tools, calls, from + 1)
    }
}

/// The tool operation that carries out the call at `i`.
pub open spec fn tool_input_of(
    tools: Seq<ToolDecisionView>,
    calls: Seq<ModelToolCallView>,
    i: int,
) -> ToolEffectInputView {
    ToolEffectInputView {
        decision: tool_named(tools, calls[i].name, 0)->0,
        call_id: calls[i].id,
        provider_result_id: calls[i].provider_result_id,
        provider_call_id: calls[i].provider_call_id,
        arguments: calls[i].arguments,
        index: clamped(i as nat),
    }
}

/// The tool operations of all calls, in the order of the calls.
pub open spec fn tool_inputs_of(
    tools: Seq<ToolDecisionView>,
    calls: Seq<ModelToolCallView>,
) -> Seq<ToolEffectInputView> {
    Seq::new(calls.len(), |i: int| tool_input_of(tools, calls, i))
}

/// The world with a tool operation for each input.
pub open spec fn with_tool_operations(
    w: WorldView,
    run: Entity,
    batch: Entity,
    inputs: Seq<ToolEffectInputView>,
) -> WorldView
    decreases inputs.len(),
{
    if inputs.len() == 0 {
        w
    } else {
        with_tool_operations(w, run, batch, inputs.drop_last()).with_tool_operation(
            run,
            batch,
            inputs.last(),
        )
    }
}

/// The world in which a run waits for the tool calls of a model output.
pub open spec fn with_tool_batch(
    w: WorldView,
    run: Entity,
    operation: Entity,
    inputs: Seq<ToolEffectInputView>,
) -> WorldView {
    let batch = w.fresh();
    let state = ToolBatchState {
        source_model_operation: operation,
        expected: clamped(inputs.len()),
        committed: false,
    };
    with_tool_operations(w.with_batch(run, state), run, batch, inputs).with_run_state(
        run,
        RunStateView::WaitingTools { batch },
    )
}

/// The world in which a run has its final output: it is complete, or waits until the
/// conversation is persisted.
pub open spec fn with_final_output(
    w: WorldView,
    run: Entity,
    record: RunRecordView,
    text: Seq<char>,
) -> WorldView {
    let output = RunOutputView { text, usage: record.usage };
    match (record.conversation, record.memory_store) {
        (Some(conversation), Some(decision)) => {
            let operation = w.fresh();
            w.with_store_operation(
                run,
                StoreEffectInputView {
                    decision,
                    operation: StoreOperationView::PersistConversation {
                        conversation,
                        entries: record.transcript,
                    },
                },
            ).with_run_record(
                run,
                RunRecordView { pending_output: Some(output), ..record },
            ).with_run_state(run, RunStateView::WaitingStore { operation })
        },
        _ => w.with_run_state(run, RunStateView::Completed(output)),
    }
}

/// The world after a model output was committed to a run. Where the schema of the run is refused,
/// the run fails for the given reason.
pub open spec fn commit_output(
    w: WorldView,
    run: Entity,
    operation: Entity,
    input: ModelEffectInputView,
    output: ModelEffectOutputView,
    reason: Seq<char>,
) -> WorldView {
    match first_repeated(output.tool_calls, 0) {
        Some(id) => w.with_failure(run, CanonicalErrorView::DuplicateToolCall(id)),
        None => {
            let record = committed_record(w.runs.records[run], output);
            let turn = CommittedTurnView { index: w.runs.records[run].next_turn, output };
            let committed = w.with_run_record(run, record).with_turn(run, turn);
            match terminal_text(input, output) {
                Some((text, validate)) => {
                    if validate && input.output_schema is Some && structured_output(
                        input.output_schema->0,
                        text,
                        reason,
                    ) is Err {
                        committed.with_failure(
                            run,
                            structured_output(input.output_schema->0, text, reason)->Err_0,
                        )
                    } else {
                        with_final_output(committed, run, record, text).progressed()
                    }
                },
                None => match first_unknown(input.tools, output.tool_calls, 0) {
                    Some(name) => committed.with_failure(
                        run,
                        CanonicalErrorView::UnknownTool(name),
                    ),
                    None => with_tool_batch(
                        committed,
                        run,
                        operation,
                        tool_inputs_of(input.tools, output.tool_calls),
                    ).progressed(),
                },
            }
        },
    }
}

/// Whether a model operation is settled and its run waits for it.
pub open spec fn model_commit_due(w: WorldView, operation: Entity) -> bool {
    &&& w.operations.model_inputs.contains_key(operation)
    &&& w.operations.operation_of.contains_key(operation)
    &&& w.operations.states.contains_key(operation)
    &&& w.operations.states[operation].phase is Settled
    &&& w.runs.states.contains_key(w.operations.operation_of[operation])
    &&& w.runs.records.contains_key(w.operations.operation_of[operation])
    &&& w.runs.states[w.operations.operation_of[operation]] == (RunStateView::WaitingModel {
        operation,
    })
}

/// The world after one model operation was committed, if it is due.
pub open spec fn commit_model_step(
    w: WorldView,
    operation: Entity,
    reason: Seq<char>,
) -> WorldView {
    if !model_commit_due(w, operation) {
        w
    } else {
        let run = w.operations.operation_of[operation];
        match w.operations.states[operation].phase->Settled_0 {
            OperationOutcomeView::Success(EffectOutputView::Model(output)) => commit_output(
                w,
                run,
                operation,
                w.operations.model_inputs[operation],
                output,
                reason,
            ),
            OperationOutcomeView::Success(_) => w.with_failure(
                run,
                CanonicalErrorView::EffectKindMismatch,
            ),
            OperationOutcomeView::Failure(error) => w.with_failure(run, error),
        }
    }
}

/// Reasons for which schemas are refused, by the operation whose output is checked.
pub type Reasons = Map<Entity, Seq<char>>;

/// The world after every due model operation was committed. Where a schema is refused, the reason
/// is that of its operation.
pub open spec fn commit_models(w: WorldView, reasons: Reasons) -> WorldView {
    entities_of(w.operations.model_inputs.dom()).fold_left(
        w,
        |w: WorldView, e: Entity| commit_model_step(w, e, reasons[e]),
    )
}

/// Whether the run of an operation has a schema that is refused.
pub open spec fn has_refused_schema(w: WorldView, operation: Entity) -> bool {
    let schema = w.operations.model_inputs[operation].output_schema;
    schema is Some && schema_refused(schema->0)
}

/// The commit of an operation is fixed but for the reason for which its schema is refused: without
/// such a schema nothing is left open, and with one only the error of its run.
pub proof fn law_only_refused_schemas_leave_a_commit_open(
    w: WorldView,
    operation: Entity,
    first: Seq<char>,
    second: Seq<char>,
)
    ensures
        !has_refused_schema(w, operation) ==> commit_model_step(w, operation, first)
            == commit_model_step(w, operation, second),
        ({
            let run = w.operations.operation_of[operation];
            let one = commit_model_step(w, operation, first);
            let other = commit_model_step(w, operation, second);
            one == other || {
                &&& one.runs.states[run] == RunStateView::Failed(
                    output_error("invalid output schema: "@, first),
                )
                &&& other == one.with_run_state(
                    run,
                    RunStateView::Failed(output_error("invalid output schema: "@, second)),
                )
            }
        }),
{
    let run = w.operations.operation_of[operation];
    let one = commit_model_step(w, operation, first);
    let other = commit_model_step(w, operation, second);
    let failure = RunStateView::Failed(output_error("invalid output schema: "@, second));
    if one != other {
        assert(other.runs.states =~= one.runs.states.insert(run, failure));
        assert(other =~= one.with_run_state(run, failure));
    }
}

/// Operations that are committed one after the other depend on their own reasons only.
proof fn lemma_own_reasons(w: WorldView, ids: Seq<Entity>, first: Reasons, second: Reasons)
    requires
        forall|i: int| 0 <= i < ids.len() ==> first[#[trigger] ids[i]] == second[ids[i]],
    ensures
        ids.fold_left(w, |w: WorldView, e: Entity| commit_model_step(w, e, first[e]))
            == ids.fold_left(w, |w: WorldView, e: Entity| commit_model_step(w, e, second[e])),
    decreases ids.len(),
{
    reveal_with_fuel(Seq::fold_left, 2);
    if ids.len() > 0 {
        let front = ids.drop_last();
        assert forall|i: int| 0 <= i < front.len() implies first[#[trigger] front[i]]
            == second[front[i]] by {
            assert(front[i] == ids[i]);
        }
        lemma_own_reasons(w, front, first, second);
        assert(ids[ids.len() - 1] == ids.last());
    }
}

fn find_repeated(calls: &Vec<ModelToolCall>) -> (r: Option<String>)
    ensures
        r.deep_view() == first_repeated(calls.deep_view(), 0),
{
    let ghost views = calls.deep_view();
    let mut i: usize = 0;
    while i < calls.len()
        invariant
            i <= calls@.len(),
            views == calls.deep_view(),
            first_repeated(views, 0) == first_repeated(views, i as int),
        decreases calls@.len() - i,
    {
        let mut j: usize = 0;
        while j < i
            invariant
                j <= i < calls@.len(),
                views == calls.deep_view(),
                first_repeated(views, 0) == first_repeated(views, i as int),
                forall|k: int| 0 <= k < j ==> (#[trigger] views[k]).id != views[i as int].id,
            decreases i - j,
        {
            assert(views[j as int] == calls@[j as int]@);
            assert(views[i as int] == calls@[i as int]@);
            if calls[j].id == calls[i].id {
                assert(repeats_earlier(views, i as int));
                return Some(calls[i].id.clone());
            }
            j = j + 1;
        }
        i = i + 1;
    }
    None
}

fn find_call<'a>(calls: &'a Vec<ModelToolCall>, name: &String) -> (r: Option<&'a ModelToolCall>)
    ensures
        match r {
            Some(call) => first_call_of(calls.deep_view(), name@, 0) == Some(call@),
            None => first_call_of(calls.deep_view(), name@, 0) is None,
        },
{
    let ghost views = calls.deep_view();
    let mut i: usize = 0;
    while i < calls.len()
        invariant
            i <= calls@.len(),
            views == calls.deep_view(),
            first_call_of(views, name@, 0) == first_call_of(views, name@, i as int),
        decreases calls@.len() - i,
    {
        assert(views[i as int] == calls@[i as int]@);
        if calls[i].name == *name {
            return Some(&calls[i]);
        }
        i = i + 1;
    }
    None
}

fn find_tool<'a>(tools: &'a Vec<ToolDecision>, name: &String) -> (r: Option<&'a ToolDecision>)
    ensures
        match r {
            Some(tool) => tool_named(tools.deep_view(), name@, 0) == Some(tool@),
            None => tool_named(tools.deep_view(), name@, 0) is None,
        },
{
    let ghost views = tools.deep_view();
    let mut i: usize = 0;
    while i < tools.len()
        invariant
            i <= tools@.len(),
            views == tools.deep_view(),
            tool_named(views, name@, 0) == tool_named(views, name@, i as int),
        decreases tools@.len() - i,
    {
        assert(views[i as int] == tools@[i as int]@);
        if tools[i].name == *name {
            return Some(&tools[i]);
        }
        i = i + 1;
    }
    None
}

fn append_output(transcript: &mut Vec<TranscriptEntry>, output: &ModelEffectOutput)
    ensures
        final(transcript).deep_view() == old(transcript).deep_view() + output_entries(output@),
{
    let ghost before = transcript.deep_view();
    match &output.assistant_message {
        Some(message) => {
            transcript.push(TranscriptEntry::AssistantMessage(message.clone()));
            assert(transcript.deep_view() =~= before + output_entries(output@));
        },
        None => {
            transcript.push(TranscriptEntry::Assistant(output.text.clone()));
            let ghost calls = output.tool_calls.deep_view();
            let ghost head = before.push(TranscriptEntryView::Assistant(output.text@));
            let mut i: usize = 0;
            assert(transcript.deep_view() =~= head + call_entries(calls.take(0)));
            while i < output.tool_calls.len()
                invariant
                    i <= output.tool_calls@.len(),
                    calls == output.tool_calls.deep_view(),
                    transcript.deep_view() == head + call_entries(calls.take(i as int)),
                decreases output.tool_calls@.len() - i,
            {
                let call = &output.tool_calls[i];
                let ghost so_far = transcript.deep_view();
                transcript.push(
                    TranscriptEntry::AssistantToolCall {
                        call_id: call.id.clone(),
                        name: call.name.clone(),
                        arguments: call.arguments.clone(),
                    },
                );
                proof {
                    assert(calls[i as int] == call@);
                    assert(transcript.deep_view() =~= so_far.push(
                        transcript@.last().deep_view(),
                    ));
                    assert(transcript.deep_view() =~= head + call_entries(calls.take(i + 1)));
                }
                i = i + 1;
            }
            assert(calls.take(i as int) =~= calls);
            assert(transcript.deep_view() =~= before + output_entries(output@));
        },
    }
}

/// Adds a model output to the record of its run.
fn commit_to_record(record: &mut RunRecord, output: &ModelEffectOutput)
    ensures
        final(record)@ == committed_record(old(record)@, output@),
{
    record.usage = Usage {
        input_tokens: record.usage.input_tokens.saturating_add(output.usage.input_tokens),
        output_tokens: record.usage.output_tokens.saturating_add(output.usage.output_tokens),
    };
    append_output(&mut record.transcript, output);
    record.next_turn = record.next_turn.saturating_add(1);
}

fn decide_terminal(input: &ModelEffectInput, output: &ModelEffectOutput) -> (r: Option<
    (String, bool),
>)
    ensures
        r.deep_view() == terminal_text(input@, output@),
{
    if output.tool_calls.len() == 0 {
        if let Some(name) = &input.terminal_tool {
            if !name.as_str().is_empty() {
                return Some((String::new(), false));
            }
        }
        return Some((output.text.clone(), true));
    }
    match &input.terminal_tool {
        Some(name) => match find_call(&output.tool_calls, name) {
            Some(call) => Some((print_json(&call.arguments), true)),
            None => None,
        },
        None => None,
    }
}

/// The tool operations of all calls, or the name of the first call whose tool was not offered.
fn prepare_tool_inputs(tools: &Vec<ToolDecision>, calls: &Vec<ModelToolCall>) -> (r: Result<
    Vec<ToolEffectInput>,
    String,
>)
    ensures
        match r {
            Ok(inputs) => first_unknown(tools.deep_view(), calls.deep_view(), 0) is None
                && inputs.deep_view() == tool_inputs_of(tools.deep_view(), calls.deep_view()),
            Err(name) => first_unknown(tools.deep_view(), calls.deep_view(), 0) == Some(name@),
        },
{
    let ghost offered = tools.deep_view();
    let ghost views = calls.deep_view();
    let mut inputs: Vec<ToolEffectInput> = Vec::new();
    let mut i: usize = 0;
    while i < calls.len()
        invariant
            i <= calls@.len(),
            offered == tools.deep_view(),
            views == calls.deep_view(),
            first_unknown(offered, views, 0) == first_unknown(offered, views, i as int),
            inputs@.len() == i,
            forall|k: int| 0 <= k < i ==> (#[trigger] inputs@[k])@ == tool_input_of(offered, views, k),
        decreases calls@.len() - i,
    {
        let call = &calls[i];
        assert(views[i as int] == call@);
        match find_tool(tools, &call.name) {
            Some(decision) => {
                let tool_input = ToolEffectInput {
                    decision: decision.clone(),
                    call_id: call.id.clone(),
                    provider_result_id: call.provider_result_id.clone(),
                    provider_call_id: call.provider_call_id.clone(),
                    arguments: call.arguments.clone(),
                    index: clamp(i),
                };
                assert(tool_input.provider_call_id.deep_view() =~= call.provider_call_id.deep_view());
                assert(tool_input@ == tool_input_of(offered, views, i as int));
                inputs.push(tool_input);
            },
            None => {
                return Err(call.name.clone());
            },
        }
        i = i + 1;
    }
    assert(inputs.deep_view() =~= tool_inputs_of(offered, views));
    Ok(inputs)
}

fn start_tool_batch(
    world: &mut World,
    run: Entity,
    operation: Entity,
    tool_inputs: Vec<ToolEffectInput>,
)
    ensures
        final(world)@ == with_tool_batch(old(world)@, run, operation, tool_inputs.deep_view()),
{
    let ghost inputs = tool_inputs.deep_view();
    let batch = world.spawn_batch(
        run,
        ToolBatchState {
            source_model_operation: operation,
            expected: clamp(tool_inputs.len()),
            committed: false,
        },
    );
    let ghost start = world@;
    let mut i: usize = 0;
    assert(inputs.take(0) =~= Seq::empty());
    while i < tool_inputs.len()
        invariant
            i <= tool_inputs@.len(),
            inputs == tool_inputs.deep_view(),
            world@ == with_tool_operations(start, run, batch, inputs.take(i as int)),
        decreases tool_inputs@.len() - i,
    {
        proof {
            assert(inputs.take(i + 1).drop_last() =~= inputs.take(i as int));
            assert(inputs.take(i + 1).last() == tool_inputs@[i as int]@);
        }
        let _ = world.spawn_tool_operation(run, batch, tool_inputs[i].clone());
        i = i + 1;
    }
    assert(inputs.take(i as int) =~= inputs);
    world.set_run_state(run, RunState::WaitingTools { batch });
}

fn finish_run(world: &mut World, run: Entity, record: RunRecord, text: String)
    requires
        old(world)@.runs.records.contains_key(run),
        old(world)@.runs.records[run] == record@,
    ensures
        final(world)@ == with_final_output(old(world)@, run, record@, text@),
{
    let mut record = record;
    let output = RunOutput { text, usage: record.usage };
    if let Some(conversation) = &record.conversation {
        if let Some(decision) = &record.memory_store {
            let entries = record.transcript.clone();
            assert(entries.deep_view() =~= record.transcript.deep_view());
            let operation = world.spawn_store_operation(
                run,
                StoreEffectInput {
                    decision: decision.clone(),
                    operation: StoreOperation::PersistConversation {
                        conversation: conversation.clone(),
                        entries,
                    },
                },
            );
            record.pending_output = Some(output);
            world.set_run_record(run, record);
            world.set_run_state(run, RunState::WaitingStore { operation });
            return;
        }
    }
    world.set_run_state(run, RunState::Completed(output));
}

fn commit_model_output(
    world: &mut World,
    run: Entity,
    operation: Entity,
    input: &ModelEffectInput,
    output: &ModelEffectOutput,
)
    requires
        old(world)@.runs.records.contains_key(run),
    ensures
        exists|reason: Seq<char>|
            final(world)@ == #[trigger] commit_output(
                old(world)@,
                run,
                operation,
                input@,
                output@,
                reason,
            ),
{
    let ghost start = world@;
    let ghost mut reason: Seq<char> = Seq::empty();
    if let Some(id) = find_repeated(&output.tool_calls) {
        world.fail_run(run, CanonicalError::DuplicateToolCall(id));
        assert(world@ == commit_output(start, run, operation, input@, output@, reason));
        return;
    }
    let mut record = match world.runs.records.get(run) {
        Some(record) => record.clone(),
        None => {
            return;
        },
    };
    let turn = CommittedTurn { index: record.next_turn, output: output.clone() };
    commit_to_record(&mut record, output);
    world.set_run_record(run, record.clone());
    let _ = world.spawn_turn(run, turn);
    match decide_terminal(input, output) {
        Some((text, validate)) => {
            if validate {
                if let Some(schema) = &input.output_schema {
                    let verdict = validate_structured_output(schema, text.as_str());
                    proof {
                        reason = choose|reason: Seq<char>|
                            (match verdict {
                                Ok(_) => Ok::<(), CanonicalErrorView>(()),
                                Err(error) => Err::<(), CanonicalErrorView>(error@),
                            }) == #[trigger] structured_output(*schema, text@, reason);
                    }
                    if let Err(error) = verdict {
                        world.fail_run(run, error);
                        assert(world@ == commit_output(
                            start,
                            run,
                            operation,
                            input@,
                            output@,
                            reason,
                        ));
                        return;
                    }
                }
            }
            finish_run(world, run, record, text);
            world.mark_progress();
        },
        None => match prepare_tool_inputs(&input.tools, &output.tool_calls) {
            Ok(tool_inputs) => {
                start_tool_batch(world, run, operation, tool_inputs);
                world.mark_progress();
            },
            Err(name) => {
                world.fail_run(run, CanonicalError::UnknownTool(name));
            },
        },
    }
    assert(world@ == commit_output(start, run, operation, input@, output@, reason));
}

/// The run, the input and the outcome of a model operation that is due.
fn find_due_commit(world: &World, operation: Entity) -> (r: Option<
    (Entity, ModelEffectInput, OperationOutcome),
>)
    ensures
        match r {
            Some((run, input, outcome)) => {
                &&& model_commit_due(world@, operation)
                &&& run == world@.operations.operation_of[operation]
                &&& input@ == world@.operations.model_inputs[operation]
                &&& outcome@ == world@.operations.states[operation].phase->Settled_0
            },
            None => !model_commit_due(world@, operation),
        },
{
    let input = match world.operations.model_inputs.get(operation) {
        Some(input) => input.clone(),
        None => return None,
    };
    let run = match world.operations.operation_of.get(operation) {
        Some(run) => *run,
        None => return None,
    };
    let outcome = match world.operations.states.get(operation) {
        Some(state) => match &state.phase {
            OperationPhase::Settled(outcome) => outcome.clone(),
            _ => return None,
        },
        None => return None,
    };
    if !world.runs.records.contains(run) {
        return None;
    }
    match world.runs.states.get(run) {
        Some(RunState::WaitingModel { operation: waiting }) => {
            if *waiting != operation {
                return None;
            }
        },
        _ => return None,
    }
    Some((run, input, outcome))
}

/// Commits one model operation, if it is due.
pub fn commit_model_operation(world: &mut World, operation: Entity)
    ensures
        exists|reason: Seq<char>|
            final(world)@ == #[trigger] commit_model_step(old(world)@, operation, reason),
{
    let ghost start = world@;
    let ghost mut reason: Seq<char> = Seq::empty();
    if let Some((run, input, outcome)) = find_due_commit(world, operation) {
        match &outcome {
            OperationOutcome::Success(EffectOutput::Model(output)) => {
                commit_model_output(world, run, operation, &input, output);
                proof {
                    reason = choose|reason: Seq<char>|
                        world@ == #[trigger] commit_output(
                            start,
                            run,
                            operation,
                            input@,
                            output@,
                            reason,
                        );
                }
            },
            OperationOutcome::Success(_) => {
                world.fail_run(run, CanonicalError::EffectKindMismatch);
            },
            OperationOutcome::Failure(error) => {
                world.fail_run(run, error.clone());
            },
        }
    }
    assert(world@ == commit_model_step(start, operation, reason));
}

/// Commits every due model operation.
pub fn commit_model_operations(world: &mut World)
    ensures
        exists|reasons: Reasons| final(world)@ == #[trigger] commit_models(old(world)@, reasons),
{
    broadcast use crate::fold::group_fold;

    let ids = world.operations.model_inputs.entities();
    let ghost start = world@;
    let ghost mut reasons: Reasons = Map::empty();
    let mut i: usize = 0;
    while i < ids.len()
        invariant
            i <= ids@.len(),
            strictly_ascending(ids@),
            world@ == ids@.take(i as int).fold_left(
                start,
                |w: WorldView, e: Entity| commit_model_step(w, e, reasons[e]),
            ),
        decreases ids@.len() - i,
    {
        let ghost before = world@;
        let ghost e = ids@[i as int];
        commit_model_operation(world, ids[i]);
        proof {
            let reason = choose|reason: Seq<char>|
                world@ == #[trigger] commit_model_step(before, e, reason);
            let more = reasons.insert(e, reason);
            let front = ids@.take(i as int);
            assert forall|k: int| 0 <= k < front.len() implies reasons[#[trigger] front[k]]
                == more[front[k]] by {
                assert(front[k] == ids@[k]);
                assert(ids@[k].0 < ids@[i as int].0);
            }
            lemma_own_reasons(start, front, reasons, more);
            lemma_fold_next(
                ids@,
                i as int,
                start,
                |w: WorldView, e: Entity| commit_model_step(w, e, more[e]),
            );
            reasons = more;
        }
        i = i + 1;
    }
    assert(world@ == commit_models(start, reasons));
}

} // verus!
