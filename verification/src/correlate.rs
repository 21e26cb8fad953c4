//! Routing of effects to local executors, and correlation of streamed tool calls.

use vstd::prelude::*;

use crate::adapters::{revision_text, stale_revision};
use crate::effect::{
    CanonicalError, CanonicalErrorView, EffectInput, EffectInputView, ModelEffectInput,
    ModelEffectInputView, ModelToolCall, ModelToolCallView, StoreEffectInput, StoreEffectInputView,
    ToolEffectInput, ToolEffectInputView, ToolEffectOutput, ToolEffectOutputView,
};
use crate::executor::{CorrelatedCall, CorrelatedCallView, ExecutorKey, ExecutorKeyView};
use crate::identity::StableId;
use crate::message::{
    DecodedEntry, DecodedEntryView, ToolCall, ToolCallView, ToolFunction, ToolFunctionView,
    ToolResult, ToolResultView,
};
use crate::report::{
    LocalStreamEvent, LocalStreamEventView, StreamedAssistantContent, StreamedAssistantContentView,
};
use crate::transcript::{result_parts, tool_result_content};
use crate::unique::{law_unique_id_is_free, make_unique, unique_id};

verus! {

/// Position of the executor of a capability revision, from a position on.
pub open spec fn executor_at(
    keys: Seq<ExecutorKeyView>,
    id: Seq<char>,
    revision: u64,
    from: int,
) -> Option<int>
    decreases keys.len() - from,
{
    if from < 0 || from >= keys.len() {
        None
    } else if keys[from].id == id && keys[from].revision == revision {
        Some(from)
    } else {
        executor_at(keys, id, revision, from + 1)
    }
}

/// Finds the executor of a capability revision.
pub fn find_executor(keys: &Vec<ExecutorKey>, id: &StableId, revision: u64) -> (r: Option<usize>)
    ensures
        match r {
            Some(i) => executor_at(keys.deep_view(), id@, revision, 0) == Some(i as int) && i
                < keys@.len(),
            None => executor_at(keys.deep_view(), id@, revision, 0) is None,
        },
{
    let ghost all = keys.deep_view();
    let mut i: usize = 0;
    while i < keys.len()
        invariant
            i <= keys@.len(),
            all == keys.deep_view(),
            executor_at(all, id@, revision, 0) == executor_at(all, id@, revision, i as int),
        decreases keys@.len() - i,
    {
        assert(all[i as int] == keys@[i as int]@);
        if keys[i].id.same(id) && keys[i].revision == revision {
            return Some(i);
        }
        i = i + 1;
    }
    None
}

/// Where a request goes.
#[derive(Debug)]
pub enum EffectRoute {
    /// To the model.
    Model(ModelEffectInput),
    /// To the batch of tool calls.
    Tool(ToolEffectInput),
    /// To the store executor at a position.
    Store(StoreEffectInput, usize),
    /// Nowhere: it has failed.
    Failed(CanonicalError),
}

/// What an [`EffectRoute`] holds.
#[verifier::ext_equal]
pub enum EffectRouteView {
    Model(ModelEffectInputView),
    Tool(ToolEffectInputView),
    Store(StoreEffectInputView, int),
    Failed(CanonicalErrorView),
}

impl View for EffectRoute {
    type V = EffectRouteView;

    open spec fn view(&self) -> EffectRouteView {
        match self {
            EffectRoute::Model(input) => EffectRouteView::Model(input@),
            EffectRoute::Tool(input) => EffectRouteView::Tool(input@),
            EffectRoute::Store(input, i) => EffectRouteView::Store(input@, *i as int),
            EffectRoute::Failed(error) => EffectRouteView::Failed(error@),
        }
    }
}

/// Where an input goes: a store operation to the executor of its revision; a discovery nowhere.
pub open spec fn routed(input: EffectInputView, stores: Seq<ExecutorKeyView>) -> EffectRouteView {
    match input {
        EffectInputView::Model(input) => EffectRouteView::Model(input),
        EffectInputView::Tool(input) => EffectRouteView::Tool(input),
        EffectInputView::Store(input) => match executor_at(
            stores,
            input.decision.store_id,
            input.decision.revision,
            0,
        ) {
            Some(i) => EffectRouteView::Store(input, i),
            None => EffectRouteView::Failed(
                CanonicalErrorView::StaleEntity(
                    revision_text(
                        "store revision "@,
                        input.decision.store_id,
                        input.decision.revision,
                    ),
                ),
            ),
        },
        EffectInputView::Discovery(_) => EffectRouteView::Failed(
            CanonicalErrorView::EffectKindMismatch,
        ),
    }
}

/// Decides where a request goes.
pub fn route_effect(input: EffectInput, stores: &Vec<ExecutorKey>) -> (r: EffectRoute)
    ensures
        r@ == routed(input@, stores.deep_view()),
{
    match input {
        EffectInput::Model(input) => EffectRoute::Model(input),
        EffectInput::Tool(input) => EffectRoute::Tool(input),
        EffectInput::Store(input) => {
            match find_executor(stores, &input.decision.store_id, input.decision.revision) {
                Some(i) => EffectRoute::Store(input, i),
                None => EffectRoute::Failed(
                    stale_revision(
                        "store revision ",
                        &input.decision.store_id,
                        input.decision.revision,
                    ),
                ),
            }
        },
        EffectInput::Discovery(_) => EffectRoute::Failed(CanonicalError::EffectKindMismatch),
    }
}

/// Finds the executor of a tool call; a call without one has failed.
pub fn route_tool(input: &ToolEffectInput, tools: &Vec<ExecutorKey>) -> (r: Result<
    usize,
    CanonicalError,
>)
    ensures
        match (
            executor_at(tools.deep_view(), input@.decision.tool_id, input@.decision.revision, 0),
            r,
        ) {
            (Some(position), Ok(i)) => i == position && i < tools@.len(),
            (None, Err(error)) => error@ == CanonicalErrorView::UnknownTool(input@.decision.name),
            _ => false,
        },
{
    match find_executor(tools, &input.decision.tool_id, input.decision.revision) {
        Some(i) => Ok(i),
        None => Err(CanonicalError::UnknownTool(input.decision.name.clone())),
    }
}

/// The call and the internal id of a canonical call: those observed in the stream at its
/// position, or else made from the canonical call.
pub open spec fn observed_call(
    call: ModelToolCallView,
    observed: Seq<(ToolCallView, Seq<char>)>,
    position: int,
) -> (ToolCallView, Seq<char>) {
    if position < observed.len() {
        observed[position]
    } else {
        (
            ToolCallView {
                id: call.provider_result_id,
                call_id: call.provider_call_id,
                function: ToolFunctionView { name: call.name, arguments: call.arguments },
            },
            call.id,
        )
    }
}

/// The internal ids of correlated calls.
pub open spec fn internal_ids(calls: Seq<CorrelatedCallView>) -> Seq<Seq<char>> {
    Seq::new(calls.len(), |i: int| calls[i].internal_call_id)
}

/// The correlation of the first calls of a response. An internal id that an earlier call of the
/// response has is made unique.
pub open spec fn correlated_upto(
    calls: Seq<ModelToolCallView>,
    observed: Seq<(ToolCallView, Seq<char>)>,
    n: int,
) -> Seq<CorrelatedCallView>
    decreases n,
{
    if n <= 0 {
        Seq::empty()
    } else {
        let before = correlated_upto(calls, observed, n - 1);
        let (tool_call, id) = observed_call(calls[n - 1], observed, n - 1);
        before.push(
            CorrelatedCallView {
                call_id: calls[n - 1].id,
                tool_call,
                internal_call_id: unique_id(internal_ids(before), id, (n - 1) as nat),
            },
        )
    }
}

/// Correlates the tool calls of a response with those observed in its stream.
pub fn correlate_calls(calls: &Vec<ModelToolCall>, observed: &Vec<(ToolCall, String)>) -> (r: Vec<
    CorrelatedCall,
>)
    requires
        2 * calls@.len() < usize::MAX,
    ensures
        r.deep_view() == correlated_upto(
            calls.deep_view(),
            observed.deep_view(),
            calls@.len() as int,
        ),
{
    let ghost all = calls.deep_view();
    let ghost seen = observed.deep_view();
    let mut r: Vec<CorrelatedCall> = Vec::new();
    let mut used: Vec<String> = Vec::new();
    let mut i: usize = 0;
    proof {
        assert(r.deep_view() =~= Seq::empty());
        assert(used.deep_view() =~= internal_ids(r.deep_view()));
    }
    while i < calls.len()
        invariant
            2 * calls@.len() < usize::MAX,
            i <= calls@.len(),
            all == calls.deep_view(),
            seen == observed.deep_view(),
            used@.len() == i,
            r.deep_view() == correlated_upto(all, seen, i as int),
            used.deep_view() == internal_ids(r.deep_view()),
        decreases calls@.len() - i,
    {
        assert(all[i as int] == calls@[i as int]@);
        let (tool_call, id) = if i < observed.len() {
            let pair = &observed[i];
            assert(seen[i as int] == (observed@[i as int].0@, observed@[i as int].1@));
            (pair.0.clone(), pair.1.clone())
        } else {
            let copy = calls[i].clone();
            let function = ToolFunction { name: copy.name, arguments: copy.arguments };
            let call = ToolCall {
                id: copy.provider_result_id,
                call_id: copy.provider_call_id,
                function,
            };
            (call, copy.id)
        };
        let ghost before = r.deep_view();
        let ghost ids = used.deep_view();
        let internal_call_id = make_unique(&used, &id, i);
        used.push(internal_call_id.clone());
        let call = CorrelatedCall { call_id: calls[i].id.clone(), tool_call, internal_call_id };
        let ghost view = call@;
        r.push(call);
        proof {
            assert(r.deep_view() =~= before.push(view));
            assert(used.deep_view() =~= ids.push(view.internal_call_id));
            assert(internal_ids(before.push(view)) =~= internal_ids(before).push(
                view.internal_call_id,
            ));
        }
        i = i + 1;
    }
    r
}

/// The internal ids of the calls of one response are distinct.
pub proof fn law_internal_ids_are_distinct(
    calls: Seq<ModelToolCallView>,
    observed: Seq<(ToolCallView, Seq<char>)>,
    n: int,
)
    requires
        0 <= n <= calls.len(),
    ensures
        internal_ids(correlated_upto(calls, observed, n)).no_duplicates(),
    decreases n,
{
    if n > 0 {
        law_internal_ids_are_distinct(calls, observed, n - 1);
        let before = correlated_upto(calls, observed, n - 1);
        let after = correlated_upto(calls, observed, n);
        let (tool_call, id) = observed_call(calls[n - 1], observed, n - 1);
        law_unique_id_is_free(internal_ids(before), id, (n - 1) as nat);
        assert(internal_ids(after) =~= internal_ids(before).push(after.last().internal_call_id));
    }
}

/// The last correlated call with a canonical id, among the first ones.
pub open spec fn correlation(calls: Seq<CorrelatedCallView>, id: Seq<char>, n: int) -> Option<
    CorrelatedCallView,
>
    decreases n,
{
    if n <= 0 {
        None
    } else if calls[n - 1].call_id == id {
        Some(calls[n - 1])
    } else {
        correlation(calls, id, n - 1)
    }
}

/// The events of a tool call that has been executed: that it is committed, where it was streamed,
/// and its result.
pub open spec fn tool_events_of(
    calls: Seq<CorrelatedCallView>,
    output: ToolEffectOutputView,
    decoded: DecodedEntryView,
) -> Seq<LocalStreamEventView> {
    let tool_result = ToolResultView {
        id: output.provider_result_id,
        call_id: output.provider_call_id,
        content: result_parts(decoded, output.presentation),
    };
    match correlation(calls, output.call_id, calls.len() as int) {
        Some(call) => seq![
            LocalStreamEventView::ToolCommitted {
                tool_call: call.tool_call,
                internal_call_id: call.internal_call_id,
            },
            LocalStreamEventView::ToolResult { tool_result, internal_call_id: call.internal_call_id },
        ],
        None => seq![
            LocalStreamEventView::ToolResult { tool_result, internal_call_id: output.call_id },
        ],
    }
}

fn find_correlation(calls: &Vec<CorrelatedCall>, id: &String) -> (r: Option<CorrelatedCall>)
    ensures
        r.deep_view() == correlation(calls.deep_view(), id@, calls@.len() as int),
{
    let ghost all = calls.deep_view();
    let mut n: usize = calls.len();
    while n > 0
        invariant
            n <= calls@.len(),
            all == calls.deep_view(),
            correlation(all, id@, n as int) == correlation(all, id@, calls@.len() as int),
        decreases n,
    {
        assert(all[n - 1] == calls@[n - 1]@);
        if calls[n - 1].call_id == *id {
            return Some(calls[n - 1].clone());
        }
        n = n - 1;
    }
    None
}

/// The events of a tool call that has been executed, from what decoding its output gave.
pub fn tool_events(calls: &Vec<CorrelatedCall>, output: &ToolEffectOutput, decoded: &DecodedEntry) -> (r:
    Vec<LocalStreamEvent>)
    ensures
        r.deep_view() == tool_events_of(calls.deep_view(), output@, decoded@),
{
    let copy = output.clone();
    let tool_result = ToolResult {
        id: copy.provider_result_id,
        call_id: copy.provider_call_id,
        content: tool_result_content(decoded, &output.presentation),
    };
    let mut r: Vec<LocalStreamEvent> = Vec::new();
    match find_correlation(calls, &output.call_id) {
        Some(call) => {
            let internal_call_id = call.internal_call_id.clone();
            r.push(
                LocalStreamEvent::ToolCommitted {
                    tool_call: call.tool_call,
                    internal_call_id: call.internal_call_id,
                },
            );
            r.push(LocalStreamEvent::ToolResult { tool_result, internal_call_id });
        },
        None => {
            r.push(LocalStreamEvent::ToolResult { tool_result, internal_call_id: copy.call_id });
        },
    }
    assert(r.deep_view() =~= tool_events_of(calls.deep_view(), output@, decoded@));
    r
}

/// What an item of a provider stream asks for.
#[derive(Debug)]
pub enum ProviderStep {
    /// A text delta is to be submitted.
    Delta(String),
    /// A complete tool call was observed.
    Observed(ToolCall, String),
    /// An event is to be reported.
    Event(LocalStreamEvent),
    /// Nothing is to be done.
    Nothing,
}

/// What a [`ProviderStep`] holds.
#[verifier::ext_equal]
pub enum ProviderStepView {
    Delta(Seq<char>),
    Observed(ToolCallView, Seq<char>),
    Event(LocalStreamEventView),
    Nothing,
}

impl View for ProviderStep {
    type V = ProviderStepView;

    open spec fn view(&self) -> ProviderStepView {
        match self {
            ProviderStep::Delta(text) => ProviderStepView::Delta(text@),
            ProviderStep::Observed(call, id) => ProviderStepView::Observed(call@, id@),
            ProviderStep::Event(event) => ProviderStepView::Event(event@),
            ProviderStep::Nothing => ProviderStepView::Nothing,
        }
    }
}

/// What an item of a provider stream asks for.
pub open spec fn provider_step_of(item: StreamedAssistantContentView) -> ProviderStepView {
    match item {
        StreamedAssistantContentView::Text(text) => ProviderStepView::Delta(text),
        StreamedAssistantContentView::ToolCall { tool_call, internal_call_id } =>
            ProviderStepView::Observed(tool_call, internal_call_id),
        StreamedAssistantContentView::ToolCallDelta { id, internal_call_id, content } =>
            ProviderStepView::Event(
            LocalStreamEventView::ToolCallDelta { id, internal_call_id, content },
        ),
        StreamedAssistantContentView::Reasoning(reasoning) => ProviderStepView::Event(
            LocalStreamEventView::Reasoning(reasoning),
        ),
        StreamedAssistantContentView::ReasoningDelta { id, reasoning } => ProviderStepView::Event(
            LocalStreamEventView::ReasoningDelta { id, reasoning },
        ),
        StreamedAssistantContentView::Unknown(value) => ProviderStepView::Event(
            LocalStreamEventView::Unknown(value),
        ),
        StreamedAssistantContentView::Last => ProviderStepView::Nothing,
    }
}

/// Decides what an item of a provider stream asks for.
pub fn provider_step(item: StreamedAssistantContent) -> (r: ProviderStep)
    ensures
        r@ == provider_step_of(item@),
{
    match item {
        StreamedAssistantContent::Text(text) => ProviderStep::Delta(text),
        StreamedAssistantContent::ToolCall { tool_call, internal_call_id } =>
            ProviderStep::Observed(tool_call, internal_call_id),
        StreamedAssistantContent::ToolCallDelta { id, internal_call_id, content } =>
            ProviderStep::Event(LocalStreamEvent::ToolCallDelta { id, internal_call_id, content }),
        StreamedAssistantContent::Reasoning(reasoning) => ProviderStep::Event(
            LocalStreamEvent::Reasoning(reasoning),
        ),
        StreamedAssistantContent::ReasoningDelta { id, reasoning } => ProviderStep::Event(
            LocalStreamEvent::ReasoningDelta { id, reasoning },
        ),
        StreamedAssistantContent::Unknown(value) => ProviderStep::Event(
            LocalStreamEvent::Unknown(value),
        ),
        StreamedAssistantContent::Last => ProviderStep::Nothing,
    }
}

} // verus!
