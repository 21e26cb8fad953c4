//! What a provider is sent for a transcript.

use vstd::prelude::*;

use crate::effect::{CanonicalErrorView, ModelEffectInputView, ToolDecisionView, TranscriptEntryView};
use crate::fold::{lemma_picked_members, picked};
use crate::json::json_object;
use crate::message::{
    AssistantContentView, CompletionRequestView, DecodedEntryView, MessageView,
    ToolResultContentView, UserContentView,
};
use crate::transcript::{
    assembled_request, assistant_turn, calls_end, first_text, messages_from, prompt_text,
    request_tools, response_of, results_end, results_turn, spoken,
};

verus! {

/// The messages of a whole transcript.
pub open spec fn messages_of(
    history: Seq<TranscriptEntryView>,
    decoded: Seq<DecodedEntryView>,
) -> Result<Seq<MessageView>, CanonicalErrorView> {
    messages_from(history, decoded, 0)
}

/// Whether messages are those of the rest of a transcript behind a message, or its fault.
pub open spec fn begins_with(
    whole: Result<Seq<MessageView>, CanonicalErrorView>,
    message: MessageView,
    rest: Result<Seq<MessageView>, CanonicalErrorView>,
) -> bool {
    match rest {
        Ok(messages) => whole == Ok::<Seq<MessageView>, CanonicalErrorView>(seq![message] + messages),
        Err(error) => whole == Err::<Seq<MessageView>, CanonicalErrorView>(error),
    }
}

proof fn lemma_calls_shift(history: Seq<TranscriptEntryView>, k: int, from: int)
    requires
        0 <= k <= from <= history.len(),
    ensures
        calls_end(history, from) == k + calls_end(history.skip(k), from - k),
        results_end(history, from) == k + results_end(history.skip(k), from - k),
        from <= calls_end(history, from) <= history.len(),
        from <= results_end(history, from) <= history.len(),
        from < history.len() && history[from] is ToolResult ==> from < results_end(history, from),
    decreases history.len() - from,
{
    if from < history.len() {
        assert(history.skip(k)[from - k] == history[from]);
        lemma_calls_shift(history, k, from + 1);
    }
}

/// The messages of the rest of a transcript do not depend on what precedes it.
proof fn lemma_messages_shift(
    history: Seq<TranscriptEntryView>,
    decoded: Seq<DecodedEntryView>,
    k: int,
    from: int,
)
    requires
        0 <= k <= from <= history.len(),
        decoded.len() == history.len(),
    ensures
        messages_from(history, decoded, from) == messages_from(
            history.skip(k),
            decoded.skip(k),
            from - k,
        ),
    decreases history.len() - from,
{
    if from < history.len() {
        assert(history.skip(k)[from - k] == history[from]);
        assert(decoded.skip(k)[from - k] == decoded[from]);
        lemma_messages_shift(history, decoded, k, from + 1);
        lemma_calls_shift(history, k, from);
        lemma_calls_shift(history, k, from + 1);
        match history[from] {
            TranscriptEntryView::Assistant(_) => {
                let end = calls_end(history, from + 1);
                lemma_messages_shift(history, decoded, k, end);
                let a = assistant_turn(history, from);
                let b = assistant_turn(history.skip(k), from - k);
                assert(Seq::new(
                    (end - from - 1) as nat,
                    |i: int| crate::transcript::call_content(history[from + 1 + i]),
                ) =~= Seq::new(
                    (end - from - 1) as nat,
                    |i: int|
                        crate::transcript::call_content(history.skip(k)[from - k + 1 + i]),
                ));
                assert(a == b);
            },
            TranscriptEntryView::ToolResult { .. } => {
                let end = results_end(history, from);
                lemma_messages_shift(history, decoded, k, end);
                assert(results_turn(history, decoded, from)->User_content =~= results_turn(
                    history.skip(k),
                    decoded.skip(k),
                    from - k,
                )->User_content);
            },
            _ => {},
        }
    }
}

/// A text of the user becomes a message of the user before the rest.
pub proof fn law_texts_of_the_user_become_messages(
    history: Seq<TranscriptEntryView>,
    decoded: Seq<DecodedEntryView>,
    text: Seq<char>,
)
    requires
        decoded.len() == history.len(),
        history.len() > 0,
        history[0] == TranscriptEntryView::User(text),
    ensures
        begins_with(
            messages_of(history, decoded),
            MessageView::User { content: seq![UserContentView::Text(text)] },
            messages_of(history.skip(1), decoded.skip(1)),
        ),
{
    lemma_messages_shift(history, decoded, 1, 1);
}

/// A message that was kept whole is sent as it was decoded; one that cannot be decoded is a fault
/// that says what it should have been. A transcript without entries has no messages.
pub proof fn law_whole_messages_are_sent_as_they_are(
    history: Seq<TranscriptEntryView>,
    decoded: Seq<DecodedEntryView>,
    message: MessageView,
    reason: Seq<char>,
)
    requires
        decoded.len() == history.len(),
    ensures
        history.len() == 0 ==> messages_of(history, decoded) == Ok::<
            Seq<MessageView>,
            CanonicalErrorView,
        >(Seq::empty()),
        history.len() > 0 && (history[0] is UserMessage || history[0] is Message
            || history[0] is AssistantMessage) && decoded[0] == DecodedEntryView::Message(message)
            ==> begins_with(
            messages_of(history, decoded),
            message,
            messages_of(history.skip(1), decoded.skip(1)),
        ),
        history.len() > 0 && history[0] is UserMessage && decoded[0] == DecodedEntryView::Refused(
            reason,
        ) ==> messages_of(history, decoded) == Err::<Seq<MessageView>, CanonicalErrorView>(
            CanonicalErrorView::Provider {
                message: "invalid canonical user message: "@ + reason,
                retryable: false,
            },
        ),
        history.len() > 0 && history[0] is Message && decoded[0] == DecodedEntryView::Refused(
            reason,
        ) ==> messages_of(history, decoded) == Err::<Seq<MessageView>, CanonicalErrorView>(
            CanonicalErrorView::Provider {
                message: "invalid canonical history message: "@ + reason,
                retryable: false,
            },
        ),
        history.len() > 0 && history[0] is AssistantMessage && decoded[0]
            == DecodedEntryView::Refused(reason) ==> messages_of(history, decoded) == Err::<
            Seq<MessageView>,
            CanonicalErrorView,
        >(
            CanonicalErrorView::Provider {
                message: "invalid canonical assistant message: "@ + reason,
                retryable: false,
            },
        ),
{
    if history.len() > 0 {
        lemma_messages_shift(history, decoded, 1, 1);
    }
}

proof fn lemma_calls_end(history: Seq<TranscriptEntryView>, from: int, end: int)
    requires
        0 <= from <= end <= history.len(),
        forall|i: int| from <= i < end ==> #[trigger] history[i] is AssistantToolCall,
        end < history.len() ==> !(history[end] is AssistantToolCall),
    ensures
        calls_end(history, from) == end,
    decreases end - from,
{
    if from < end {
        lemma_calls_end(history, from + 1, end);
    }
}

proof fn lemma_results_end(history: Seq<TranscriptEntryView>, from: int, end: int)
    requires
        0 <= from <= end <= history.len(),
        forall|i: int| from <= i < end ==> #[trigger] history[i] is ToolResult,
        end < history.len() ==> !(history[end] is ToolResult),
    ensures
        results_end(history, from) == end,
    decreases end - from,
{
    if from < end {
        lemma_results_end(history, from + 1, end);
    }
}

/// Whether a part of a message is the call of an entry.
pub open spec fn is_call_of(part: AssistantContentView, entry: TranscriptEntryView) -> bool {
    &&& part is ToolCall
    &&& part->ToolCall_0.id == entry->AssistantToolCall_call_id
    &&& part->ToolCall_0.call_id is None
    &&& part->ToolCall_0.function.name == entry->AssistantToolCall_name
    &&& part->ToolCall_0.function.arguments == entry->AssistantToolCall_arguments
}

/// What the model said and the calls behind it become one message of the assistant: the text,
/// unless it is empty, and then each call in order. Without either it holds one empty text.
pub proof fn law_turns_of_the_model_become_one_message(
    history: Seq<TranscriptEntryView>,
    decoded: Seq<DecodedEntryView>,
    text: Seq<char>,
    end: int,
)
    requires
        decoded.len() == history.len(),
        1 <= end <= history.len(),
        history[0] == TranscriptEntryView::Assistant(text),
        forall|i: int| 1 <= i < end ==> #[trigger] history[i] is AssistantToolCall,
        end < history.len() ==> !(history[end] is AssistantToolCall),
    ensures
        ({
            let message = assistant_turn(history, 0);
            let content = message->Assistant_content;
            let skipped: int = if text.len() > 0 {
                1
            } else {
                0
            };
            &&& begins_with(
                messages_of(history, decoded),
                message,
                messages_of(history.skip(end), decoded.skip(end)),
            )
            &&& message is Assistant
            &&& message->Assistant_id is None
            &&& text.len() > 0 ==> content[0] == AssistantContentView::Text(text)
            &&& text.len() > 0 || end > 1 ==> content.len() == skipped + end - 1
            &&& text.len() == 0 && end == 1 ==> content == seq![
                AssistantContentView::Text(Seq::empty()),
            ]
            &&& forall|i: int|
                1 <= i < end ==> is_call_of(content[skipped + i - 1], #[trigger] history[i])
        }),
{
    lemma_calls_end(history, 1, end);
    lemma_messages_shift(history, decoded, end, end);
}

/// A call without a turn of the model before it is a fault.
pub proof fn law_calls_need_a_turn(
    history: Seq<TranscriptEntryView>,
    decoded: Seq<DecodedEntryView>,
)
    requires
        history.len() > 0,
        history[0] is AssistantToolCall,
    ensures
        messages_of(history, decoded) == Err::<Seq<MessageView>, CanonicalErrorView>(
            CanonicalErrorView::Provider {
                message: "tool call transcript entry lacked an assistant turn"@,
                retryable: false,
            },
        ),
{
    let text = "tool call transcript entry lacked an assistant turn"@;
    assert(text + Seq::<char>::empty() =~= text);
}

/// Whether a part of a message is the result of an entry, under the ids of the provider.
pub open spec fn is_result_of(
    part: UserContentView,
    entry: TranscriptEntryView,
    decoded: DecodedEntryView,
) -> bool {
    &&& part is ToolResult
    &&& part->ToolResult_0.id == entry->ToolResult_provider_result_id
    &&& part->ToolResult_0.call_id == entry->ToolResult_provider_call_id
    &&& decoded is Contents ==> part->ToolResult_0.content == decoded->Contents_0
    &&& !(decoded is Contents) ==> part->ToolResult_0.content == seq![
        ToolResultContentView::Text(entry->ToolResult_content),
    ]
}

/// Results that follow each other become one message of the user, with each result in order.
pub proof fn law_results_become_one_message(
    history: Seq<TranscriptEntryView>,
    decoded: Seq<DecodedEntryView>,
    end: int,
)
    requires
        decoded.len() == history.len(),
        1 <= end <= history.len(),
        forall|i: int| 0 <= i < end ==> #[trigger] history[i] is ToolResult,
        end < history.len() ==> !(history[end] is ToolResult),
    ensures
        ({
            let message = results_turn(history, decoded, 0);
            &&& begins_with(
                messages_of(history, decoded),
                message,
                messages_of(history.skip(end), decoded.skip(end)),
            )
            &&& message is User
            &&& message->User_content.len() == end
            &&& forall|i: int|
                0 <= i < end ==> is_result_of(
                    message->User_content[i],
                    #[trigger] history[i],
                    decoded[i],
                )
        }),
{
    lemma_results_end(history, 0, end);
    assert(history[0] is ToolResult);
    lemma_messages_shift(history, decoded, end, end);
}

/// The messages of a response hold each message of the transcript but those in which the model
/// says nothing, in order: one more message is added where it says something.
pub proof fn law_silent_messages_are_left_out(
    history: Seq<TranscriptEntryView>,
    decoded: Seq<DecodedEntryView>,
    message: MessageView,
)
    requires
        messages_of(history, decoded) is Ok,
    ensures
        ({
            let all = messages_of(history, decoded)->Ok_0;
            let shown = response_of(history, decoded);
            let silent = message is Assistant && forall|i: int|
                0 <= i < message->Assistant_content.len()
                    ==> #[trigger] message->Assistant_content[i] == AssistantContentView::Text(
                    Seq::empty(),
                );
            &&& shown is Ok
            &&& shown->Ok_0.contains(message) <==> all.contains(message) && !silent
            &&& shown->Ok_0.len() <= all.len()
        }),
{
    let all = messages_of(history, decoded)->Ok_0;
    let pick = |m: MessageView| spoken(m);
    lemma_picked_members(all, pick, message);
    lemma_picked_length(all, pick);
    if all.contains(message) {
        let i = choose|i: int| 0 <= i < all.len() && all[i] == message;
        assert(pick(all[i]) == spoken(message));
    }
}

proof fn lemma_picked_length<A, B>(items: Seq<A>, pick: spec_fn(A) -> Option<B>)
    ensures
        picked(items, pick).len() <= items.len(),
    decreases items.len(),
{
    if items.len() > 0 {
        lemma_picked_length(items.drop_last(), pick);
    }
}

proof fn lemma_first_text(content: Seq<UserContentView>, from: int, k: int)
    requires
        0 <= from <= k < content.len(),
        content[k] is Text,
        forall|i: int| 0 <= i < k ==> !(#[trigger] content[i] is Text),
    ensures
        first_text(content, from) == Some(content[k]->Text_0),
    decreases k - from,
{
    if from < k {
        assert(!(content[from] is Text));
        lemma_first_text(content, from + 1, k);
    }
}

proof fn lemma_no_text(content: Seq<UserContentView>, from: int)
    requires
        0 <= from,
        forall|i: int| 0 <= i < content.len() ==> !(#[trigger] content[i] is Text),
    ensures
        first_text(content, from) is None,
    decreases content.len() - from,
{
    if from < content.len() {
        assert(!(content[from] is Text));
        lemma_no_text(content, from + 1);
    }
}

/// The text of a prompt is its first part that is a text; only a message of the user has one.
pub proof fn law_prompts_are_known_by_their_first_text(message: MessageView, k: int)
    ensures
        !(message is User) ==> prompt_text(message) is None,
        message is User && (forall|i: int|
            0 <= i < message->User_content.len() ==> !(#[trigger] message->User_content[i]
                is Text)) ==> prompt_text(message) is None,
        message is User && 0 <= k < message->User_content.len() && message->User_content[k] is Text
            && (forall|i: int| 0 <= i < k ==> !(#[trigger] message->User_content[i] is Text))
            ==> prompt_text(message) == Some(message->User_content[k]->Text_0),
{
    if message is User {
        let content = message->User_content;
        if forall|i: int| 0 <= i < content.len() ==> !(#[trigger] content[i] is Text) {
            lemma_no_text(content, 0);
        }
        if 0 <= k < content.len() && content[k] is Text && (forall|i: int|
            0 <= i < k ==> !(#[trigger] content[i] is Text)) {
            lemma_first_text(content, 0, k);
        }
    }
}

/// A request starts with the instructions, where there are any. The messages of the transcript
/// follow, or, where there are none, the prompt.
pub proof fn law_requests_start_with_the_instructions(
    input: ModelEffectInputView,
    decoded: Seq<DecodedEntryView>,
    prompt: Result<MessageView, Seq<char>>,
    messages: Seq<MessageView>,
)
    requires
        messages_of(input.history, decoded) == Ok::<Seq<MessageView>, CanonicalErrorView>(messages),
        messages.len() == 0 ==> prompt is Ok,
    ensures
        ({
            let request = assembled_request(input, decoded, prompt, None);
            let said = if messages.len() > 0 {
                messages
            } else {
                seq![prompt->Ok_0]
            };
            &&& request is Ok
            &&& input.instructions.len() == 0 ==> request->Ok_0.chat_history == said
            &&& input.instructions.len() > 0 ==> {
                &&& request->Ok_0.chat_history.len() == said.len() + 1
                &&& request->Ok_0.chat_history[0] == MessageView::System(input.instructions)
                &&& request->Ok_0.chat_history.skip(1) == said
            }
        }),
{
    let said = if messages.len() > 0 {
        messages
    } else {
        seq![prompt->Ok_0]
    };
    assert((seq![MessageView::System(input.instructions)] + said).skip(1) =~= said);
}

/// A request without messages whose prompt cannot be read is refused, and so is one with a fault
/// in its transcript.
pub proof fn law_requests_that_cannot_be_read_are_refused(
    input: ModelEffectInputView,
    decoded: Seq<DecodedEntryView>,
    prompt: Result<MessageView, Seq<char>>,
    rejection: Option<Seq<char>>,
)
    ensures
        messages_of(input.history, decoded) is Err ==> assembled_request(
            input,
            decoded,
            prompt,
            rejection,
        ) == Err::<CompletionRequestView, CanonicalErrorView>(
            messages_of(input.history, decoded)->Err_0,
        ),
        messages_of(input.history, decoded) is Ok && messages_of(input.history, decoded)->Ok_0.len()
            == 0 && prompt is Err ==> assembled_request(input, decoded, prompt, rejection) == Err::<
            CompletionRequestView,
            CanonicalErrorView,
        >(
            CanonicalErrorView::Provider {
                message: "invalid canonical prompt: "@ + prompt->Err_0,
                retryable: false,
            },
        ),
        messages_of(input.history, decoded) is Ok && messages_of(input.history, decoded)->Ok_0.len()
            > 0 && input.terminal_tool is None && input.output_schema is Some && rejection is Some
            ==> assembled_request(input, decoded, prompt, rejection) == Err::<
            CompletionRequestView,
            CanonicalErrorView,
        >(
            CanonicalErrorView::InvalidStructuredOutput(
                "invalid configured schema: "@ + rejection->0,
            ),
        ),
{
}

/// Whether a tool is on offer under a name.
pub open spec fn on_offer(tools: Seq<ToolDecisionView>, name: Seq<char>) -> bool {
    exists|i: int| 0 <= i < tools.len() && (#[trigger] tools[i]).name == name
}

/// A request holds the settings of its operation: the documents, the sampling, the choice of tools
/// and the parameters. It offers each tool that was decided on, in order, and then the terminal
/// tool, where one is named that is not among them, with the schema as its parameters. The schema
/// itself is asked for only where no terminal tool takes its place.
pub proof fn law_requests_hold_the_settings(
    input: ModelEffectInputView,
    decoded: Seq<DecodedEntryView>,
    prompt: Result<MessageView, Seq<char>>,
    rejection: Option<Seq<char>>,
)
    requires
        assembled_request(input, decoded, prompt, rejection) is Ok,
    ensures
        ({
            let request = assembled_request(input, decoded, prompt, rejection)->Ok_0;
            let n = input.tools.len();
            let terminal = input.terminal_tool is Some && input.terminal_tool->0.len() > 0
                && !on_offer(input.tools, input.terminal_tool->0);
            &&& input.decision.model.len() > 0 ==> request.model == Some(input.decision.model)
            &&& input.decision.model.len() == 0 ==> request.model is None
            &&& request.documents == input.documents
            &&& request.temperature_bits == input.temperature_bits
            &&& request.max_tokens == input.max_tokens
            &&& request.tool_choice == input.tool_choice
            &&& request.additional_params == input.additional_params
            &&& input.terminal_tool is None ==> request.output_schema == input.output_schema
            &&& input.terminal_tool is Some ==> request.output_schema is None
            &&& forall|i: int|
                0 <= i < n ==> {
                    &&& request.tools[i].name == (#[trigger] input.tools[i]).name
                    &&& request.tools[i].description == input.tools[i].description
                    &&& request.tools[i].parameters == input.tools[i].parameters
                }
            &&& !terminal ==> request.tools.len() == n
            &&& terminal ==> {
                &&& request.tools.len() == n + 1
                &&& request.tools[n as int].name == input.terminal_tool->0
                &&& input.output_schema is Some ==> request.tools[n as int].parameters
                    == input.output_schema->0
                &&& input.output_schema is None ==> request.tools[n as int].parameters
                    == json_object(seq![("type"@, "object"@)])
            }
        }),
{
    let tools = request_tools(input);
    assert forall|i: int| 0 <= i < input.tools.len() implies {
        &&& tools[i].name == (#[trigger] input.tools[i]).name
        &&& tools[i].description == input.tools[i].description
        &&& tools[i].parameters == input.tools[i].parameters
    } by {}
    if let Some(name) = input.terminal_tool {
        assert(on_offer(input.tools, name) == crate::transcript::offers_tool(input.tools, name));
    }
}

/// The schema of a request is read where it is asked for, and only there: not where a terminal tool
/// takes its place.
pub proof fn law_schemas_are_read_where_they_are_asked_for(input: ModelEffectInputView)
    ensures
        input.terminal_tool is None && input.output_schema is Some
            ==> crate::transcript::native_rejection(input) == crate::json::schema_rejection(
            input.output_schema->0,
        ),
        input.terminal_tool is Some || input.output_schema is None
            ==> crate::transcript::native_rejection(input) is None,
{
}

proof fn lemma_picked_positions<A, B>(items: Seq<A>, pick: spec_fn(A) -> Option<B>) -> (kept: Seq<
    int,
>)
    ensures
        kept.len() == picked(items, pick).len(),
        forall|k: int|
            0 <= k < kept.len() ==> 0 <= #[trigger] kept[k] < items.len() && pick(items[kept[k]])
                == Some(picked(items, pick)[k]),
        forall|j: int, k: int| 0 <= j < k < kept.len() ==> #[trigger] kept[j] < #[trigger] kept[k],
    decreases items.len(),
{
    if items.len() == 0 {
        Seq::empty()
    } else {
        let front = items.drop_last();
        let before = lemma_picked_positions(front, pick);
        let rest = picked(front, pick);
        let all = picked(items, pick);
        let kept = if pick(items.last()) is Some {
            before.push(items.len() - 1)
        } else {
            before
        };
        assert forall|k: int| 0 <= k < kept.len() implies 0 <= #[trigger] kept[k] < items.len()
            && pick(items[kept[k]]) == Some(all[k]) by {
            if k < before.len() {
                assert(kept[k] == before[k]);
                assert(front[before[k]] == items[before[k]]);
                assert(all[k] == rest[k]);
            }
        }
        assert forall|j: int, k: int| 0 <= j < k < kept.len() implies #[trigger] kept[j]
            < #[trigger] kept[k] by {
            assert(kept[j] == before[j]);
            if k < before.len() {
                assert(kept[k] == before[k]);
            }
        }
        kept
    }
}

/// Whether messages stand in the order of others, each of them once at most.
pub open spec fn keeps_order(all: Seq<MessageView>, shown: Seq<MessageView>) -> bool {
    exists|kept: Seq<int>|
        {
            &&& #[trigger] kept.len() == shown.len()
            &&& forall|k: int|
                0 <= k < kept.len() ==> 0 <= #[trigger] kept[k] < all.len() && all[kept[k]]
                    == shown[k]
            &&& forall|j: int, k: int|
                0 <= j < k < kept.len() ==> #[trigger] kept[j] < #[trigger] kept[k]
        }
}

/// The messages of a response stand in the order of the transcript.
pub proof fn law_responses_keep_the_order_of_the_transcript(
    history: Seq<TranscriptEntryView>,
    decoded: Seq<DecodedEntryView>,
)
    requires
        messages_of(history, decoded) is Ok,
    ensures
        response_of(history, decoded) is Ok,
        keeps_order(messages_of(history, decoded)->Ok_0, response_of(history, decoded)->Ok_0),
{
    let all = messages_of(history, decoded)->Ok_0;
    let pick = |m: MessageView| spoken(m);
    let kept = lemma_picked_positions(all, pick);
    let shown = response_of(history, decoded)->Ok_0;
    assert(shown == picked(all, pick));
    assert forall|k: int| 0 <= k < kept.len() implies 0 <= #[trigger] kept[k] < all.len()
        && all[kept[k]] == shown[k] by {
        assert(spoken(all[kept[k]]) == Some(shown[k]));
    }
    assert(kept.len() == shown.len());
}

} // verus!
