//! From a transcript to the messages of a model request.

use vstd::prelude::*;
use vstd::string::*;

use crate::effect::{
    CanonicalError, CanonicalErrorView, ModelEffectInput, ModelEffectInputView, ToolDecision,
    ToolDecisionView, TranscriptEntry, TranscriptEntryView,
};
use crate::fold::{lemma_picked_next, picked};
use crate::json::{json_object, make_object, reject_schema, schema_rejection};
use crate::message::{
    AssistantContent, AssistantContentView, CompletionRequest, CompletionRequestView, DecodedEntry,
    DecodedEntryView, Message, MessageView, ToolCall, ToolCallView, ToolDefinition,
    ToolDefinitionView, ToolFunction, ToolFunctionView, ToolResult, ToolResultContent,
    ToolResultContentView, ToolResultView, UserContent, UserContentView,
};
use crate::run::{PromptPayload, PromptPayloadView, SubmitError, SubmitErrorView};

verus! {

/// A provider error that is not worth a retry.
pub open spec fn provider_error(prefix: Seq<char>, reason: Seq<char>) -> CanonicalErrorView {
    CanonicalErrorView::Provider { message: prefix + reason, retryable: false }
}

fn refuse(prefix: &str, reason: &str) -> (r: CanonicalError)
    ensures
        r@ == provider_error(prefix@, reason@),
{
    let mut message = prefix.to_owned();
    message.append(reason);
    CanonicalError::Provider { message, retryable: false }
}

/// Whether a transcript entry holds a whole encoded message.
pub open spec fn is_encoded(entry: TranscriptEntryView) -> bool {
    entry is UserMessage || entry is Message || entry is AssistantMessage
}

/// Whether there is a decoding for every entry, and a message or a refusal for every encoded one.
pub open spec fn decodes(
    history: Seq<TranscriptEntryView>,
    decoded: Seq<DecodedEntryView>,
) -> bool {
    &&& decoded.len() == history.len()
    &&& forall|i: int|
        0 <= i < history.len() && is_encoded(#[trigger] history[i]) ==> decoded[i] is Message
            || decoded[i] is Refused
}

/// The message of an encoded entry, or the error for one that could not be decoded.
pub open spec fn decoded_message(prefix: Seq<char>, decoded: DecodedEntryView) -> Result<
    MessageView,
    CanonicalErrorView,
> {
    match decoded {
        DecodedEntryView::Message(message) => Ok(message),
        DecodedEntryView::Refused(reason) => Err(provider_error(prefix, reason)),
        _ => Err(provider_error(prefix, Seq::empty())),
    }
}

/// A message before others, unless either failed.
pub open spec fn before_messages(
    message: Result<MessageView, CanonicalErrorView>,
    rest: Result<Seq<MessageView>, CanonicalErrorView>,
) -> Result<Seq<MessageView>, CanonicalErrorView> {
    match (message, rest) {
        (Err(error), _) => Err(error),
        (Ok(_), Err(error)) => Err(error),
        (Ok(message), Ok(rest)) => Ok(seq![message] + rest),
    }
}

/// End of the run of tool calls that starts at an entry.
pub open spec fn calls_end(history: Seq<TranscriptEntryView>, from: int) -> int
    decreases history.len() - from,
{
    if 0 <= from < history.len() && history[from] is AssistantToolCall {
        calls_end(history, from + 1)
    } else {
        from
    }
}

/// End of the run of tool results that starts at an entry.
pub open spec fn results_end(history: Seq<TranscriptEntryView>, from: int) -> int
    decreases history.len() - from,
{
    if 0 <= from < history.len() && history[from] is ToolResult {
        results_end(history, from + 1)
    } else {
        from
    }
}

/// The call of a tool-call entry.
pub open spec fn call_content(entry: TranscriptEntryView) -> AssistantContentView {
    AssistantContentView::ToolCall(
        ToolCallView {
            id: entry->AssistantToolCall_call_id,
            call_id: None,
            function: ToolFunctionView {
                name: entry->AssistantToolCall_name,
                arguments: entry->AssistantToolCall_arguments,
            },
        },
    )
}

/// The message of an assistant turn: its text, unless that is empty, and the calls that follow
/// it; an empty text where there would be nothing at all.
pub open spec fn assistant_turn(history: Seq<TranscriptEntryView>, from: int) -> MessageView {
    let text = history[from]->Assistant_0;
    let calls = Seq::new(
        (calls_end(history, from + 1) - from - 1) as nat,
        |k: int| call_content(history[from + 1 + k]),
    );
    let said = if text.len() == 0 {
        Seq::empty()
    } else {
        seq![AssistantContentView::Text(text)]
    };
    let content = said + calls;
    MessageView::Assistant {
        id: None,
        content: if content.len() == 0 {
            seq![AssistantContentView::Text(Seq::empty())]
        } else {
            content
        },
    }
}

/// The parts of a tool result: those that were decoded, or else its presentation.
pub open spec fn result_parts(decoded: DecodedEntryView, presentation: Seq<char>) -> Seq<
    ToolResultContentView,
> {
    match decoded {
        DecodedEntryView::Contents(parts) => parts,
        _ => seq![ToolResultContentView::Text(presentation)],
    }
}

/// The result of a tool-result entry.
pub open spec fn result_content(
    entry: TranscriptEntryView,
    decoded: DecodedEntryView,
) -> UserContentView {
    UserContentView::ToolResult(
        ToolResultView {
            id: entry->ToolResult_provider_result_id,
            call_id: entry->ToolResult_provider_call_id,
            content: result_parts(decoded, entry->ToolResult_content),
        },
    )
}

/// The message of a run of tool results.
pub open spec fn results_turn(
    history: Seq<TranscriptEntryView>,
    decoded: Seq<DecodedEntryView>,
    from: int,
) -> MessageView {
    MessageView::User {
        content: Seq::new(
            (results_end(history, from) - from) as nat,
            |k: int| result_content(history[from + k], decoded[from + k]),
        ),
    }
}

proof fn lemma_runs_end(history: Seq<TranscriptEntryView>, from: int)
    requires
        0 <= from <= history.len(),
    ensures
        from <= calls_end(history, from) <= history.len(),
        from <= results_end(history, from) <= history.len(),
        from < history.len() && history[from] is ToolResult ==> from < results_end(history, from),
    decreases history.len() - from,
{
    if from < history.len() {
        lemma_runs_end(history, from + 1);
    }
}

/// The messages of the part of a transcript that starts at an entry, or the first fault in it.
pub open spec fn messages_from(
    history: Seq<TranscriptEntryView>,
    decoded: Seq<DecodedEntryView>,
    from: int,
) -> Result<Seq<MessageView>, CanonicalErrorView>
    decreases history.len() - from,
    when 0 <= from <= history.len()
    via messages_from_decreases
{
    if from >= history.len() {
        Ok(Seq::empty())
    } else {
        match history[from] {
            TranscriptEntryView::User(text) => before_messages(
                Ok(MessageView::User { content: seq![UserContentView::Text(text)] }),
                messages_from(history, decoded, from + 1),
            ),
            TranscriptEntryView::UserMessage(_) => before_messages(
                decoded_message("invalid canonical user message: "@, decoded[from]),
                messages_from(history, decoded, from + 1),
            ),
            TranscriptEntryView::Message(_) => before_messages(
                decoded_message("invalid canonical history message: "@, decoded[from]),
                messages_from(history, decoded, from + 1),
            ),
            TranscriptEntryView::AssistantMessage(_) => before_messages(
                decoded_message("invalid canonical assistant message: "@, decoded[from]),
                messages_from(history, decoded, from + 1),
            ),
            TranscriptEntryView::Assistant(_) => before_messages(
                Ok(assistant_turn(history, from)),
                messages_from(history, decoded, calls_end(history, from + 1)),
            ),
            TranscriptEntryView::AssistantToolCall { .. } => Err(
                provider_error("tool call transcript entry lacked an assistant turn"@, Seq::empty()),
            ),
            TranscriptEntryView::ToolResult { .. } => before_messages(
                Ok(results_turn(history, decoded, from)),
                messages_from(history, decoded, results_end(history, from)),
            ),
        }
    }
}

#[via_fn]
proof fn messages_from_decreases(
    history: Seq<TranscriptEntryView>,
    decoded: Seq<DecodedEntryView>,
    from: int,
) {
    if from < history.len() {
        lemma_runs_end(history, from);
        lemma_runs_end(history, from + 1);
    }
}

/// Messages that stand before those still to come.
pub open spec fn after_messages(
    done: Seq<MessageView>,
    rest: Result<Seq<MessageView>, CanonicalErrorView>,
) -> Result<Seq<MessageView>, CanonicalErrorView> {
    match rest {
        Ok(rest) => Ok(done + rest),
        Err(error) => Err(error),
    }
}

/// What an executable result stands for.
pub open spec fn messages_result(r: Result<Vec<Message>, CanonicalError>) -> Result<
    Seq<MessageView>,
    CanonicalErrorView,
> {
    match r {
        Ok(messages) => Ok(messages.deep_view()),
        Err(error) => Err(error@),
    }
}

fn take_decoded(prefix: &str, decoded: &DecodedEntry) -> (r: Result<Message, CanonicalError>)
    ensures
        (match r {
            Ok(message) => Ok::<MessageView, CanonicalErrorView>(message@),
            Err(error) => Err::<MessageView, CanonicalErrorView>(error@),
        }) == decoded_message(prefix@, decoded@),
{
    match decoded {
        DecodedEntry::Message(message) => Ok(message.clone()),
        DecodedEntry::Refused(reason) => Err(refuse(prefix, reason.as_str())),
        _ => {
            proof {
                reveal_strlit("");
                assert(""@ =~= Seq::empty());
            }
            Err(refuse(prefix, ""))
        },
    }
}

/// The parts of a tool result: those that were decoded, or else its presentation.
pub fn tool_result_content(decoded: &DecodedEntry, presentation: &String) -> (r: Vec<
    ToolResultContent,
>)
    ensures
        r.deep_view() == result_parts(decoded@, presentation@),
{
    match decoded {
        DecodedEntry::Contents(parts) => {
            let mut r: Vec<ToolResultContent> = Vec::new();
            let mut i: usize = 0;
            while i < parts.len()
                invariant
                    i <= parts@.len(),
                    r@.len() == i,
                    forall|k: int| 0 <= k < i ==> (#[trigger] r@[k])@ == parts@[k]@,
                decreases parts@.len() - i,
            {
                r.push(parts[i].clone());
                i = i + 1;
            }
            assert(r.deep_view() =~= parts.deep_view());
            r
        },
        _ => {
            let r = vec![ToolResultContent::Text(presentation.clone())];
            assert(r.deep_view() =~= seq![ToolResultContentView::Text(presentation@)]);
            r
        },
    }
}

/// Groups the tool calls of an assistant turn; gives the message and the end of the turn.
fn take_assistant_turn(history: &Vec<TranscriptEntry>, from: usize) -> (r: (Message, usize))
    requires
        from < history@.len(),
        history@[from as int]@ is Assistant,
    ensures
        r.0@ == assistant_turn(history.deep_view(), from as int),
        r.1 == calls_end(history.deep_view(), from + 1),
        from < r.1 <= history@.len(),
{
    let ghost h = history.deep_view();
    let mut content: Vec<AssistantContent> = Vec::new();
    let ghost mut said: Seq<AssistantContentView> = Seq::empty();
    assert(h[from as int] == history@[from as int]@);
    if let TranscriptEntry::Assistant(text) = &history[from] {
        if !text.as_str().is_empty() {
            content.push(AssistantContent::Text(text.clone()));
            proof {
                said = seq![AssistantContentView::Text(text@)];
            }
        }
    }
    assert(content.deep_view() =~= said);
    let ghost first: int = from + 1;
    let n: usize = history.len();
    assert(from < n);
    let mut index: usize = from + 1;
    loop
        invariant
            h == history.deep_view(),
            first == from + 1,
            first <= index <= history@.len(),
            calls_end(h, index as int) == calls_end(h, first),
            content.deep_view() == said + Seq::new(
                (index - first) as nat,
                |k: int| call_content(h[first + k]),
            ),
        ensures
            first <= index <= history@.len(),
            index == calls_end(h, first),
            content.deep_view() == said + Seq::new(
                (index - first) as nat,
                |k: int| call_content(h[first + k]),
            ),
        decreases history@.len() - index,
    {
        if index >= history.len() {
            break;
        }
        assert(h[index as int] == history@[index as int]@);
        match &history[index] {
            TranscriptEntry::AssistantToolCall { call_id, name, arguments } => {
                let ghost before = content.deep_view();
                let function = ToolFunction { name: name.clone(), arguments: arguments.clone() };
                let call = ToolCall { id: call_id.clone(), call_id: None, function };
                let part = AssistantContent::ToolCall(call);
                assert(part@ == call_content(h[index as int]));
                content.push(part);
                assert(content.deep_view() =~= before.push(call_content(h[index as int])));
                assert(content.deep_view() =~= said + Seq::new(
                    (index + 1 - first) as nat,
                    |k: int| call_content(h[first + k]),
                ));
                index = index + 1;
            },
            _ => {
                break;
            },
        }
    }
    if content.len() == 0 {
        let empty = String::new();
        content.push(AssistantContent::Text(empty));
        assert(content.deep_view() =~= seq![AssistantContentView::Text(Seq::empty())]);
    }
    (Message::Assistant { id: None, content }, index)
}

/// Groups consecutive tool results; gives the message and their end.
fn take_results(
    history: &Vec<TranscriptEntry>,
    decoded: &Vec<DecodedEntry>,
    from: usize,
) -> (r: (Message, usize))
    requires
        from < history@.len(),
        decoded@.len() == history@.len(),
        history@[from as int]@ is ToolResult,
    ensures
        r.0@ == results_turn(history.deep_view(), decoded.deep_view(), from as int),
        r.1 == results_end(history.deep_view(), from as int),
        from < r.1 <= history@.len(),
{
    let ghost h = history.deep_view();
    let ghost d = decoded.deep_view();
    let mut content: Vec<UserContent> = Vec::new();
    let mut index: usize = from;
    assert(content.deep_view() =~= Seq::new(0, |k: int| result_content(h[from + k], d[from + k])));
    loop
        invariant
            h == history.deep_view(),
            d == decoded.deep_view(),
            decoded@.len() == history@.len(),
            from <= index <= history@.len(),
            results_end(h, index as int) == results_end(h, from as int),
            content.deep_view() == Seq::new(
                (index - from) as nat,
                |k: int| result_content(h[from + k], d[from + k]),
            ),
        ensures
            from <= index <= history@.len(),
            index == results_end(h, from as int),
            content.deep_view() == Seq::new(
                (index - from) as nat,
                |k: int| result_content(h[from + k], d[from + k]),
            ),
        decreases history@.len() - index,
    {
        if index >= history.len() {
            break;
        }
        assert(h[index as int] == history@[index as int]@);
        assert(d[index as int] == decoded@[index as int]@);
        match &history[index] {
            TranscriptEntry::ToolResult {
                provider_result_id,
                provider_call_id,
                content: presentation,
                ..
            } => {
                let ghost before = content.deep_view();
                let result = ToolResult {
                    id: provider_result_id.clone(),
                    call_id: provider_call_id.clone(),
                    content: tool_result_content(&decoded[index], presentation),
                };
                assert(result.call_id.deep_view() == provider_call_id.deep_view());
                let part = UserContent::ToolResult(result);
                assert(part@ == result_content(h[index as int], d[index as int]));
                content.push(part);
                assert(content.deep_view() =~= before.push(
                    result_content(h[index as int], d[index as int]),
                ));
                assert(content.deep_view() =~= Seq::new(
                    (index + 1 - from) as nat,
                    |k: int| result_content(h[from + k], d[from + k]),
                ));
                index = index + 1;
            },
            _ => {
                break;
            },
        }
    }
    proof {
        lemma_runs_end(h, from as int);
        assert(h[from as int] == history@[from as int]@);
    }
    (Message::User { content }, index)
}

/// The messages of a transcript. Tool calls join the assistant turn before them, and consecutive
/// tool results are one message of the user.
pub fn transcript_messages(history: &Vec<TranscriptEntry>, decoded: &Vec<DecodedEntry>) -> (r:
    Result<Vec<Message>, CanonicalError>)
    requires
        decodes(history.deep_view(), decoded.deep_view()),
    ensures
        messages_result(r) == messages_from(history.deep_view(), decoded.deep_view(), 0),
{
    let ghost h = history.deep_view();
    let ghost d = decoded.deep_view();
    let mut messages: Vec<Message> = Vec::new();
    let mut index: usize = 0;
    assert(messages.deep_view() =~= Seq::empty());
    proof {
        let all = messages_from(h, d, 0);
        if all is Ok {
            assert(Seq::<MessageView>::empty() + all->Ok_0 =~= all->Ok_0);
        }
    }
    while index < history.len()
        invariant
            h == history.deep_view(),
            d == decoded.deep_view(),
            decodes(h, d),
            index <= history@.len(),
            messages_from(h, d, 0) == after_messages(
                messages.deep_view(),
                messages_from(h, d, index as int),
            ),
        decreases history@.len() - index,
    {
        let ghost before = messages.deep_view();
        let ghost start = index as int;
        assert(h[index as int] == history@[index as int]@);
        assert(d[index as int] == decoded@[index as int]@);
        let message = match &history[index] {
            TranscriptEntry::User(text) => {
                let content = vec![UserContent::Text(text.clone())];
                assert(content.deep_view() =~= seq![UserContentView::Text(text@)]);
                index = index + 1;
                Message::User { content }
            },
            TranscriptEntry::UserMessage(_) => {
                match take_decoded("invalid canonical user message: ", &decoded[index]) {
                    Ok(message) => {
                        index = index + 1;
                        message
                    },
                    Err(error) => return Err(error),
                }
            },
            TranscriptEntry::Message(_) => {
                match take_decoded("invalid canonical history message: ", &decoded[index]) {
                    Ok(message) => {
                        index = index + 1;
                        message
                    },
                    Err(error) => return Err(error),
                }
            },
            TranscriptEntry::AssistantMessage(_) => {
                match take_decoded("invalid canonical assistant message: ", &decoded[index]) {
                    Ok(message) => {
                        index = index + 1;
                        message
                    },
                    Err(error) => return Err(error),
                }
            },
            TranscriptEntry::Assistant(_) => {
                let (message, end) = take_assistant_turn(history, index);
                index = end;
                message
            },
            TranscriptEntry::AssistantToolCall { .. } => {
                proof {
                    reveal_strlit("");
                    assert(""@ =~= Seq::empty());
                }
                return Err(refuse("tool call transcript entry lacked an assistant turn", ""));
            },
            TranscriptEntry::ToolResult { .. } => {
                let (message, end) = take_results(history, decoded, index);
                index = end;
                message
            },
        };
        let ghost view = message@;
        messages.push(message);
        proof {
            assert(messages.deep_view() =~= before.push(view));
            let rest = messages_from(h, d, index as int);
            assert(messages_from(h, d, start) == before_messages(Ok(view), rest));
            if rest is Ok {
                assert(before + (seq![view] + rest->Ok_0) =~= before.push(view) + rest->Ok_0);
            }
        }
    }
    proof {
        assert(messages.deep_view() + Seq::<MessageView>::empty() =~= messages.deep_view());
    }
    Ok(messages)
}

/// Whether a message is of the model and says nothing.
pub open spec fn is_silent(message: MessageView) -> bool {
    match message {
        MessageView::Assistant { content, .. } => forall|i: int|
            0 <= i < content.len() ==> #[trigger] content[i] == AssistantContentView::Text(
                Seq::empty(),
            ),
        _ => false,
    }
}

/// A message, unless it is silent.
pub open spec fn spoken(message: MessageView) -> Option<MessageView> {
    if is_silent(message) {
        None
    } else {
        Some(message)
    }
}

/// The messages of a transcript without the silent ones.
pub open spec fn response_of(
    history: Seq<TranscriptEntryView>,
    decoded: Seq<DecodedEntryView>,
) -> Result<Seq<MessageView>, CanonicalErrorView> {
    match messages_from(history, decoded, 0) {
        Ok(messages) => Ok(picked(messages, |m: MessageView| spoken(m))),
        Err(error) => Err(error),
    }
}

fn says_nothing(message: &Message) -> (r: bool)
    ensures
        r == is_silent(message@),
{
    match message {
        Message::Assistant { content, .. } => {
            let mut i: usize = 0;
            while i < content.len()
                invariant
                    i <= content@.len(),
                    message@ is Assistant,
                    message@->Assistant_content == content.deep_view(),
                    forall|k: int|
                        0 <= k < i ==> (#[trigger] content@[k])@ == AssistantContentView::Text(
                            Seq::empty(),
                        ),
                decreases content@.len() - i,
            {
                let ghost view = content.deep_view();
                assert(view[i as int] == content@[i as int]@);
                let empty = match &content[i] {
                    AssistantContent::Text(text) => {
                        let empty = text.as_str().is_empty();
                        proof {
                            if empty {
                                assert(text@ =~= Seq::empty());
                            }
                        }
                        empty
                    },
                    _ => false,
                };
                if !empty {
                    assert(view[i as int] != AssistantContentView::Text(Seq::empty()));
                    return false;
                }
                i = i + 1;
            }
            proof {
                let view = content.deep_view();
                assert forall|k: int| 0 <= k < view.len() implies #[trigger] view[k]
                    == AssistantContentView::Text(Seq::empty()) by {
                    assert(view[k] == content@[k]@);
                }
            }
            true
        },
        _ => false,
    }
}

/// The messages of a transcript for a caller: those in which the model says nothing are left out.
pub fn response_messages(history: &Vec<TranscriptEntry>, decoded: &Vec<DecodedEntry>) -> (r: Result<
    Vec<Message>,
    CanonicalError,
>)
    requires
        decodes(history.deep_view(), decoded.deep_view()),
    ensures
        messages_result(r) == response_of(history.deep_view(), decoded.deep_view()),
{
    broadcast use crate::fold::group_fold;

    let messages = match transcript_messages(history, decoded) {
        Ok(messages) => messages,
        Err(error) => return Err(error),
    };
    let ghost all = messages.deep_view();
    let ghost pick = |m: MessageView| spoken(m);
    let mut kept: Vec<Message> = Vec::new();
    let mut i: usize = 0;
    assert(kept.deep_view() =~= Seq::empty());
    while i < messages.len()
        invariant
            i <= messages@.len(),
            all == messages.deep_view(),
            pick == (|m: MessageView| spoken(m)),
            kept.deep_view() == picked(all.take(i as int), pick),
        decreases messages@.len() - i,
    {
        proof {
            lemma_picked_next(all, i as int, pick);
            assert(all[i as int] == messages@[i as int]@);
        }
        if !says_nothing(&messages[i]) {
            let ghost before = kept.deep_view();
            let message = messages[i].clone();
            let ghost view = message@;
            kept.push(message);
            assert(kept.deep_view() =~= before.push(view));
        }
        i = i + 1;
    }
    Ok(kept)
}

/// First text part of a message of the user, from a part on.
pub open spec fn first_text(content: Seq<UserContentView>, from: int) -> Option<Seq<char>>
    decreases content.len() - from,
{
    if from < 0 || from >= content.len() {
        None
    } else {
        match content[from] {
            UserContentView::Text(text) => Some(text),
            _ => first_text(content, from + 1),
        }
    }
}

/// The text of a prompt, which is its first text part.
pub open spec fn prompt_text(message: MessageView) -> Option<Seq<char>> {
    match message {
        MessageView::User { content } => first_text(content, 0),
        _ => None,
    }
}

/// Whether a prompt is a single text.
pub open spec fn is_plain_text(message: MessageView) -> bool {
    match message {
        MessageView::User { content } => content.len() == 1 && content[0] is Text,
        _ => false,
    }
}

fn read_prompt_text(message: &Message) -> (r: Option<String>)
    ensures
        r.deep_view() == prompt_text(message@),
{
    match message {
        Message::User { content } => {
            let ghost view = content.deep_view();
            let mut i: usize = 0;
            while i < content.len()
                invariant
                    i <= content@.len(),
                    view == content.deep_view(),
                    message@ is User,
                    message@->User_content == view,
                    first_text(view, 0) == first_text(view, i as int),
                decreases content@.len() - i,
            {
                assert(view[i as int] == content@[i as int]@);
                if let UserContent::Text(text) = &content[i] {
                    return Some(text.clone());
                }
                i = i + 1;
            }
            None
        },
        _ => None,
    }
}

/// The payload of a prompt command, from the message and what encoding it gave.
pub fn prompt_payload(message: &Message, encoded: Result<serde_json::Value, String>) -> (r: Result<
    PromptPayload,
    SubmitError,
>)
    ensures
        match (r, encoded) {
            (Ok(payload), Ok(value)) => payload@ == (PromptPayloadView {
                message: value,
                text: prompt_text(message@),
                plain_text: is_plain_text(message@),
            }),
            (Err(error), Err(reason)) => error@ == SubmitErrorView::InvalidPrompt(reason@),
            _ => false,
        },
{
    let plain_text = match message {
        Message::User { content } => {
            if content.len() == 1 {
                assert(content.deep_view()[0] == content@[0]@);
                matches!(&content[0], UserContent::Text(_))
            } else {
                false
            }
        },
        _ => false,
    };
    match encoded {
        Ok(value) => Ok(
            PromptPayload { message: value, text: read_prompt_text(message), plain_text },
        ),
        Err(reason) => Err(SubmitError::InvalidPrompt(reason)),
    }
}

/// The messages of a model request: the transcript, or else the prompt, after the instructions
/// where there are any.
pub open spec fn request_messages(
    input: ModelEffectInputView,
    decoded: Seq<DecodedEntryView>,
    prompt: Result<MessageView, Seq<char>>,
) -> Result<Seq<MessageView>, CanonicalErrorView> {
    let said = match messages_from(input.history, decoded, 0) {
        Ok(messages) => if messages.len() > 0 {
            Ok(messages)
        } else {
            match prompt {
                Ok(message) => Ok(seq![message]),
                Err(reason) => Err(provider_error("invalid canonical prompt: "@, reason)),
            }
        },
        Err(error) => Err(error),
    };
    if input.instructions.len() == 0 {
        said
    } else {
        before_messages(Ok(MessageView::System(input.instructions)), said)
    }
}

/// The definition of a tool that was decided on.
pub open spec fn tool_definition(tool: ToolDecisionView) -> ToolDefinitionView {
    ToolDefinitionView {
        name: tool.name,
        description: tool.description,
        parameters: tool.parameters,
    }
}

/// The definition of the tool whose arguments are the final answer.
pub open spec fn terminal_definition(
    name: Seq<char>,
    schema: Option<serde_json::Value>,
) -> ToolDefinitionView {
    ToolDefinitionView {
        name,
        description: "Call this tool exactly once with your final answer when you are done. Its arguments are the structured result and must satisfy the output schema."@,
        parameters: match schema {
            Some(schema) => schema,
            None => json_object(seq![("type"@, "object"@)]),
        },
    }
}

/// Whether one of the tools has a name.
pub open spec fn offers_tool(tools: Seq<ToolDecisionView>, name: Seq<char>) -> bool {
    exists|i: int| 0 <= i < tools.len() && (#[trigger] tools[i]).name == name
}

/// The tools of a model request: those that were decided on, and the terminal tool where one is
/// named that is not among them.
pub open spec fn request_tools(input: ModelEffectInputView) -> Seq<ToolDefinitionView> {
    let offered = Seq::new(input.tools.len(), |i: int| tool_definition(input.tools[i]));
    match input.terminal_tool {
        Some(name) => if name.len() > 0 && !offers_tool(input.tools, name) {
            offered.push(terminal_definition(name, input.output_schema))
        } else {
            offered
        },
        None => offered,
    }
}

/// The native schema of a model request: none where a terminal tool takes its place.
pub open spec fn request_schema(input: ModelEffectInputView) -> Option<serde_json::Value> {
    if input.terminal_tool is None {
        input.output_schema
    } else {
        None
    }
}

/// The model request of an effect, from what decoding its messages and reading its schema gave.
pub open spec fn assembled_request(
    input: ModelEffectInputView,
    decoded: Seq<DecodedEntryView>,
    prompt: Result<MessageView, Seq<char>>,
    rejection: Option<Seq<char>>,
) -> Result<CompletionRequestView, CanonicalErrorView> {
    match (request_messages(input, decoded, prompt), request_schema(input), rejection) {
        (Err(error), _, _) => Err(error),
        (Ok(_), Some(_), Some(reason)) => Err(
            CanonicalErrorView::InvalidStructuredOutput("invalid configured schema: "@ + reason),
        ),
        (Ok(messages), schema, _) => Ok(
            CompletionRequestView {
                model: if input.decision.model.len() == 0 {
                    None
                } else {
                    Some(input.decision.model)
                },
                chat_history: messages,
                documents: input.documents,
                tools: request_tools(input),
                temperature_bits: input.temperature_bits,
                max_tokens: input.max_tokens,
                tool_choice: input.tool_choice,
                additional_params: input.additional_params,
                output_schema: schema,
            },
        ),
    }
}

/// What an executable request stands for.
pub open spec fn request_result(r: Result<CompletionRequest, CanonicalError>) -> Result<
    CompletionRequestView,
    CanonicalErrorView,
> {
    match r {
        Ok(request) => Ok(request@),
        Err(error) => Err(error@),
    }
}

/// What an executable decoding of a prompt stands for.
pub open spec fn prompt_result(r: Result<Message, String>) -> Result<MessageView, Seq<char>> {
    match r {
        Ok(message) => Ok(message@),
        Err(reason) => Err(reason@),
    }
}

fn list_messages(
    input: &ModelEffectInput,
    decoded: &Vec<DecodedEntry>,
    prompt: &Result<Message, String>,
) -> (r: Result<Vec<Message>, CanonicalError>)
    requires
        decodes(input@.history, decoded.deep_view()),
    ensures
        messages_result(r) == request_messages(input@, decoded.deep_view(), prompt_result(*prompt)),
{
    let mut messages = match transcript_messages(&input.history, decoded) {
        Ok(messages) => messages,
        Err(error) => return Err(error),
    };
    if messages.len() == 0 {
        match prompt {
            Ok(message) => {
                messages.push(message.clone());
                assert(messages.deep_view() =~= seq![message@]);
            },
            Err(reason) => return Err(refuse("invalid canonical prompt: ", reason.as_str())),
        }
    }
    if !input.instructions.as_str().is_empty() {
        let ghost before = messages.deep_view();
        messages.insert(0, Message::System(input.instructions.clone()));
        assert(messages.deep_view() =~= seq![MessageView::System(input@.instructions)] + before);
    }
    Ok(messages)
}

fn list_tools(input: &ModelEffectInput) -> (r: Vec<ToolDefinition>)
    ensures
        r.deep_view() == request_tools(input@),
{
    let ghost tools = input@.tools;
    let mut r: Vec<ToolDefinition> = Vec::new();
    let mut i: usize = 0;
    while i < input.tools.len()
        invariant
            i <= input.tools@.len(),
            tools == input.tools.deep_view(),
            r@.len() == i,
            forall|k: int| 0 <= k < i ==> (#[trigger] r@[k])@ == tool_definition(tools[k]),
        decreases input.tools@.len() - i,
    {
        assert(tools[i as int] == input.tools@[i as int]@);
        let tool: &ToolDecision = &input.tools[i];
        r.push(
            ToolDefinition {
                name: tool.name.clone(),
                description: tool.description.clone(),
                parameters: tool.parameters.clone(),
            },
        );
        i = i + 1;
    }
    assert(r.deep_view() =~= Seq::new(tools.len(), |i: int| tool_definition(tools[i])));
    if let Some(name) = &input.terminal_tool {
        let mut offered = false;
        let mut j: usize = 0;
        while j < input.tools.len()
            invariant
                j <= input.tools@.len(),
                tools == input.tools.deep_view(),
                offered ==> offers_tool(tools, name@),
                !offered ==> forall|k: int| 0 <= k < j ==> (#[trigger] tools[k]).name != name@,
            decreases input.tools@.len() - j,
        {
            assert(tools[j as int] == input.tools@[j as int]@);
            if input.tools[j].name == *name {
                offered = true;
            }
            j = j + 1;
        }
        if !name.as_str().is_empty() && !offered {
            let parameters = match &input.output_schema {
                Some(schema) => schema.clone(),
                None => {
                    let members = vec![("type".to_owned(), "object".to_owned())];
                    assert(members.deep_view() =~= seq![("type"@, "object"@)]);
                    make_object(members)
                },
            };
            let ghost before = r.deep_view();
            let terminal = ToolDefinition {
                name: name.clone(),
                description: "Call this tool exactly once with your final answer when you are done. Its arguments are the structured result and must satisfy the output schema.".to_owned(),
                parameters,
            };
            r.push(terminal);
            assert(r.deep_view() =~= before.push(terminal_definition(name@, input@.output_schema)));
        }
    }
    r
}

/// Puts a model request together from what decoding its messages and reading its schema gave.
pub fn assemble_request(
    input: &ModelEffectInput,
    decoded: &Vec<DecodedEntry>,
    prompt: &Result<Message, String>,
    rejection: &Option<String>,
) -> (r: Result<CompletionRequest, CanonicalError>)
    requires
        decodes(input@.history, decoded.deep_view()),
    ensures
        request_result(r) == assembled_request(
            input@,
            decoded.deep_view(),
            prompt_result(*prompt),
            rejection.deep_view(),
        ),
{
    let chat_history = match list_messages(input, decoded, prompt) {
        Ok(messages) => messages,
        Err(error) => return Err(error),
    };
    let copy = input.clone();
    let output_schema = if copy.terminal_tool.is_none() {
        copy.output_schema
    } else {
        None
    };
    if output_schema.is_some() {
        if let Some(reason) = rejection {
            let mut message = "invalid configured schema: ".to_owned();
            message.append(reason.as_str());
            return Err(CanonicalError::InvalidStructuredOutput(message));
        }
    }
    let model = if copy.decision.model.as_str().is_empty() {
        None
    } else {
        Some(copy.decision.model)
    };
    Ok(
        CompletionRequest {
            model,
            chat_history,
            documents: copy.documents,
            tools: list_tools(input),
            temperature_bits: copy.temperature_bits,
            max_tokens: copy.max_tokens,
            tool_choice: copy.tool_choice,
            additional_params: copy.additional_params,
            output_schema,
        },
    )
}

/// The rejection of the native schema of an effect, where it has one.
pub open spec fn native_rejection(input: ModelEffectInputView) -> Option<Seq<char>> {
    match request_schema(input) {
        Some(schema) => schema_rejection(schema),
        None => None,
    }
}

/// The model request of an effect, from what decoding its messages gave.
pub fn completion_request(
    input: &ModelEffectInput,
    decoded: &Vec<DecodedEntry>,
    prompt: &Result<Message, String>,
) -> (r: Result<CompletionRequest, CanonicalError>)
    requires
        decodes(input@.history, decoded.deep_view()),
    ensures
        request_result(r) == assembled_request(
            input@,
            decoded.deep_view(),
            prompt_result(*prompt),
            native_rejection(input@),
        ),
{
    let mut rejection: Option<String> = None;
    if input.terminal_tool.is_none() {
        if let Some(schema) = &input.output_schema {
            rejection = reject_schema(schema);
        }
    }
    assemble_request(input, decoded, prompt, &rejection)
}

} // verus!
