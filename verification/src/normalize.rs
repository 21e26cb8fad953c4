//! From the content of a model response to its canonical output.

use vstd::prelude::*;
use vstd::string::*;

use crate::effect::{
    CanonicalError, CanonicalErrorView, ModelEffectOutput, ModelEffectOutputView, ModelToolCall,
    ModelToolCallView, Usage,
};
use crate::fold::{lemma_picked_next, picked};
use crate::json::{json_object, json_text, make_object};
use crate::message::{
    AssistantContent, AssistantContentView, CompletionUsage, Message, MessageView,
    NormalizedOutput, NormalizedOutputView, Reasoning, ReasoningView, ToolCall, ToolCallView,
};
use crate::text::same_optional_text;
use crate::unique::{law_unique_id_is_free, make_unique, unique_id};

verus! {

/// The correlation id that a part of a response states, if it states one.
pub open spec fn stated_id(part: AssistantContentView) -> Option<Seq<char>> {
    match part {
        AssistantContentView::ToolCall(call) => call.call_id,
        _ => None,
    }
}

/// The correlation ids that a response states.
pub open spec fn stated_ids(content: Seq<AssistantContentView>) -> Seq<Seq<char>> {
    picked(content, |part: AssistantContentView| stated_id(part))
}

/// The ids of tool calls.
pub open spec fn call_ids(calls: Seq<ModelToolCallView>) -> Seq<Seq<char>> {
    Seq::new(calls.len(), |i: int| calls[i].id)
}

/// A tool call in canonical form. It keeps the correlation id that it states; one that states
/// none is known by its own id, made unique among the used ones.
pub open spec fn canonical_call(
    call: ToolCallView,
    used: Seq<Seq<char>>,
    position: nat,
) -> ModelToolCallView {
    ModelToolCallView {
        id: match call.call_id {
            Some(id) => id,
            None => unique_id(used, call.id, position),
        },
        provider_result_id: if call.call_id is Some {
            call.function.name
        } else {
            call.id
        },
        provider_call_id: call.call_id,
        name: call.function.name,
        arguments: if json_text(call.function.arguments) == "null"@ {
            json_object(Seq::empty())
        } else {
            call.function.arguments
        },
    }
}

/// The canonical tool calls of the first parts of a response. All ids that the response states
/// anywhere count as used from the start.
pub open spec fn calls_upto(content: Seq<AssistantContentView>, n: int) -> Seq<ModelToolCallView>
    decreases n,
{
    if n <= 0 {
        Seq::empty()
    } else {
        let before = calls_upto(content, n - 1);
        match content[n - 1] {
            AssistantContentView::ToolCall(call) => before.push(
                canonical_call(call, stated_ids(content) + call_ids(before), before.len()),
            ),
            _ => before,
        }
    }
}

/// The text of the first parts of a response.
pub open spec fn text_upto(content: Seq<AssistantContentView>, n: int) -> Seq<char>
    decreases n,
{
    if n <= 0 {
        Seq::empty()
    } else {
        match content[n - 1] {
            AssistantContentView::Text(text) => text_upto(content, n - 1) + text,
            _ => text_upto(content, n - 1),
        }
    }
}

/// Whether a part is a reasoning block with the same id and text as another block.
pub open spec fn same_block(part: AssistantContentView, block: ReasoningView) -> bool {
    match part {
        AssistantContentView::Reasoning(other) => other.id == block.id && other.display_text
            == block.display_text,
        _ => false,
    }
}

/// Position of the last of the first parts that repeats a reasoning block.
pub open spec fn last_block(
    parts: Seq<AssistantContentView>,
    block: ReasoningView,
    n: int,
) -> Option<int>
    decreases n,
{
    if n <= 0 {
        None
    } else if same_block(parts[n - 1], block) {
        Some(n - 1)
    } else {
        last_block(parts, block, n - 1)
    }
}

/// Parts with one more: a repeated reasoning block takes the place of the last one that it
/// repeats.
pub open spec fn with_part(
    parts: Seq<AssistantContentView>,
    part: AssistantContentView,
) -> Seq<AssistantContentView> {
    match part {
        AssistantContentView::Reasoning(block) => match last_block(
            parts,
            block,
            parts.len() as int,
        ) {
            Some(i) => parts.update(i, part),
            None => parts.push(part),
        },
        _ => parts.push(part),
    }
}

/// The first parts of a response without repeated reasoning blocks.
pub open spec fn parts_upto(content: Seq<AssistantContentView>, n: int) -> Seq<AssistantContentView>
    decreases n,
{
    if n <= 0 {
        Seq::empty()
    } else {
        with_part(parts_upto(content, n - 1), content[n - 1])
    }
}

/// Whether a part is a reasoning block with an id.
pub open spec fn is_identified(part: AssistantContentView) -> bool {
    match part {
        AssistantContentView::Reasoning(block) => block.id is Some,
        _ => false,
    }
}

/// A part, unless it is a reasoning block without an id.
pub open spec fn unless_anonymous(part: AssistantContentView) -> Option<AssistantContentView> {
    match part {
        AssistantContentView::Reasoning(block) => if block.id is None {
            None
        } else {
            Some(part)
        },
        _ => Some(part),
    }
}

/// Whether some part is a reasoning block with an id.
pub open spec fn has_identified(parts: Seq<AssistantContentView>) -> bool {
    exists|i: int| 0 <= i < parts.len() && is_identified(#[trigger] parts[i])
}

/// The parts of a response that its message keeps: where some reasoning block has an id, those
/// without one are left out.
pub open spec fn kept_parts(content: Seq<AssistantContentView>) -> Seq<AssistantContentView> {
    let parts = parts_upto(content, content.len() as int);
    if has_identified(parts) {
        picked(parts, |part: AssistantContentView| unless_anonymous(part))
    } else {
        parts
    }
}

/// Whether a response holds an image.
pub open spec fn has_image(content: Seq<AssistantContentView>) -> bool {
    exists|i: int| 0 <= i < content.len() && #[trigger] content[i] is Image
}

/// Usage in canonical form: a provider that reports only a total has it counted as output.
pub open spec fn canonical_usage(usage: CompletionUsage) -> Usage {
    Usage {
        input_tokens: usage.input_tokens,
        output_tokens: if usage.input_tokens == 0 && usage.output_tokens == 0 {
            usage.total_tokens
        } else {
            usage.output_tokens
        },
    }
}

/// The canonical output of a response; a response with an image has none.
pub open spec fn normalized(
    content: Seq<AssistantContentView>,
    usage: CompletionUsage,
    message_id: Option<Seq<char>>,
) -> Result<NormalizedOutputView, CanonicalErrorView> {
    if has_image(content) {
        Err(CanonicalErrorView::UnsupportedModelContent("assistant image"@))
    } else {
        let kept = kept_parts(content);
        Ok(
            NormalizedOutputView {
                assistant_message: if kept.len() == 0 {
                    None
                } else {
                    Some(MessageView::Assistant { id: message_id, content: kept })
                },
                text: text_upto(content, content.len() as int),
                usage: canonical_usage(usage),
                tool_calls: calls_upto(content, content.len() as int),
            },
        )
    }
}

fn gather_stated_ids(content: &Vec<AssistantContent>) -> (r: Vec<String>)
    ensures
        r.deep_view() == stated_ids(content.deep_view()),
        r@.len() <= content@.len(),
{
    broadcast use crate::fold::group_fold;

    let ghost all = content.deep_view();
    let ghost pick = |part: AssistantContentView| stated_id(part);
    let mut r: Vec<String> = Vec::new();
    let mut i: usize = 0;
    assert(r.deep_view() =~= Seq::empty());
    while i < content.len()
        invariant
            i <= content@.len(),
            r@.len() <= i,
            all == content.deep_view(),
            pick == (|part: AssistantContentView| stated_id(part)),
            r.deep_view() == picked(all.take(i as int), pick),
        decreases content@.len() - i,
    {
        proof {
            lemma_picked_next(all, i as int, pick);
            assert(all[i as int] == content@[i as int]@);
        }
        if let AssistantContent::ToolCall(call) = &content[i] {
            if let Some(id) = &call.call_id {
                let ghost before = r.deep_view();
                r.push(id.clone());
                assert(r.deep_view() =~= before.push(id@));
            }
        }
        i = i + 1;
    }
    r
}

fn normalize_call(call: &ToolCall, used: &Vec<String>, position: usize) -> (r: ModelToolCall)
    requires
        position + used@.len() < usize::MAX,
    ensures
        r@ == canonical_call(call@, used.deep_view(), position as nat),
{
    let copy = call.clone();
    let id = match &call.call_id {
        Some(id) => id.clone(),
        None => make_unique(used, &call.id, position),
    };
    let provider_result_id = if call.call_id.is_some() {
        call.function.name.clone()
    } else {
        call.id.clone()
    };
    let arguments = if call.function.arguments.is_null() {
        let members: Vec<(String, String)> = Vec::new();
        assert(members.deep_view() =~= Seq::empty());
        make_object(members)
    } else {
        copy.function.arguments
    };
    ModelToolCall {
        id,
        provider_result_id,
        provider_call_id: copy.call_id,
        name: copy.function.name,
        arguments,
    }
}

fn find_last_block(parts: &Vec<AssistantContent>, block: &Reasoning) -> (r: Option<usize>)
    ensures
        match r {
            Some(i) => i < parts@.len() && last_block(
                parts.deep_view(),
                block@,
                parts@.len() as int,
            ) == Some(i as int),
            None => last_block(parts.deep_view(), block@, parts@.len() as int) is None,
        },
{
    let ghost all = parts.deep_view();
    let mut n: usize = parts.len();
    while n > 0
        invariant
            n <= parts@.len(),
            all == parts.deep_view(),
            last_block(all, block@, n as int) == last_block(all, block@, parts@.len() as int),
        decreases n,
    {
        assert(all[n - 1] == parts@[n - 1]@);
        if let AssistantContent::Reasoning(other) = &parts[n - 1] {
            if same_optional_text(&other.id, &block.id) && other.display_text
                == block.display_text {
                return Some(n - 1);
            }
        }
        n = n - 1;
    }
    None
}

fn add_part(parts: &mut Vec<AssistantContent>, part: &AssistantContent)
    ensures
        final(parts).deep_view() == with_part(old(parts).deep_view(), part@),
{
    let ghost before = parts.deep_view();
    if let AssistantContent::Reasoning(block) = part {
        if let Some(i) = find_last_block(parts, block) {
            parts.set(i, part.clone());
            assert(parts.deep_view() =~= before.update(i as int, part@));
            return;
        }
    }
    parts.push(part.clone());
    assert(parts.deep_view() =~= before.push(part@));
}

fn drop_anonymous(parts: Vec<AssistantContent>) -> (r: Vec<AssistantContent>)
    ensures
        r.deep_view() == (if has_identified(parts.deep_view()) {
            picked(parts.deep_view(), |part: AssistantContentView| unless_anonymous(part))
        } else {
            parts.deep_view()
        }),
{
    broadcast use crate::fold::group_fold;

    let ghost all = parts.deep_view();
    let ghost pick = |part: AssistantContentView| unless_anonymous(part);
    let mut identified = false;
    let mut kept: Vec<AssistantContent> = Vec::new();
    let mut i: usize = 0;
    assert(kept.deep_view() =~= Seq::empty());
    while i < parts.len()
        invariant
            i <= parts@.len(),
            all == parts.deep_view(),
            pick == (|part: AssistantContentView| unless_anonymous(part)),
            kept.deep_view() == picked(all.take(i as int), pick),
            identified ==> has_identified(all),
            !identified ==> forall|k: int| 0 <= k < i ==> !is_identified(#[trigger] all[k]),
        decreases parts@.len() - i,
    {
        proof {
            lemma_picked_next(all, i as int, pick);
            assert(all[i as int] == parts@[i as int]@);
        }
        let anonymous = match &parts[i] {
            AssistantContent::Reasoning(block) => {
                if block.id.is_some() {
                    identified = true;
                    assert(is_identified(all[i as int]));
                    false
                } else {
                    true
                }
            },
            _ => false,
        };
        if !anonymous {
            let ghost before = kept.deep_view();
            kept.push(parts[i].clone());
            assert(kept.deep_view() =~= before.push(all[i as int]));
        }
        i = i + 1;
    }
    if identified {
        kept
    } else {
        parts
    }
}

/// Normalizes the content of a model response: all of its text, its tool calls with an id each,
/// its usage, and a message that keeps its content.
pub fn normalize_model_output(
    content: &Vec<AssistantContent>,
    usage: CompletionUsage,
    message_id: &Option<String>,
) -> (r: Result<NormalizedOutput, CanonicalError>)
    requires
        3 * content@.len() < usize::MAX,
    ensures
        (match r {
            Ok(output) => Ok::<NormalizedOutputView, CanonicalErrorView>(output@),
            Err(error) => Err::<NormalizedOutputView, CanonicalErrorView>(error@),
        }) == normalized(content.deep_view(), usage, message_id.deep_view()),
{
    let ghost all = content.deep_view();
    let ghost stated = stated_ids(all);
    let mut text = String::new();
    let mut tool_calls: Vec<ModelToolCall> = Vec::new();
    let mut parts: Vec<AssistantContent> = Vec::new();
    let mut used = gather_stated_ids(content);
    let mut i: usize = 0;
    proof {
        assert(tool_calls.deep_view() =~= Seq::empty());
        assert(parts.deep_view() =~= Seq::empty());
        assert(used.deep_view() =~= stated + call_ids(tool_calls.deep_view()));
    }
    while i < content.len()
        invariant
            3 * content@.len() < usize::MAX,
            i <= content@.len(),
            all == content.deep_view(),
            stated == stated_ids(all),
            tool_calls@.len() <= i,
            used@.len() <= content@.len() + i,
            forall|k: int| 0 <= k < i ==> !(#[trigger] all[k] is Image),
            text@ == text_upto(all, i as int),
            parts.deep_view() == parts_upto(all, i as int),
            tool_calls.deep_view() == calls_upto(all, i as int),
            used.deep_view() == stated + call_ids(tool_calls.deep_view()),
        decreases content@.len() - i,
    {
        assert(all[i as int] == content@[i as int]@);
        add_part(&mut parts, &content[i]);
        match &content[i] {
            AssistantContent::Text(said) => {
                text.append(said.as_str());
            },
            AssistantContent::ToolCall(call) => {
                let ghost before = tool_calls.deep_view();
                let ghost ids = used.deep_view();
                let call = normalize_call(call, &used, tool_calls.len());
                let ghost view = call@;
                used.push(call.id.clone());
                tool_calls.push(call);
                proof {
                    assert(tool_calls.deep_view() =~= before.push(view));
                    assert(used.deep_view() =~= ids.push(view.id));
                    assert(call_ids(before.push(view)) =~= call_ids(before).push(view.id));
                    assert((stated + call_ids(before)).push(view.id) =~= stated + call_ids(
                        before,
                    ).push(view.id));
                }
            },
            AssistantContent::Reasoning(_) => {},
            AssistantContent::Image(_) => {
                return Err(CanonicalError::UnsupportedModelContent("assistant image".to_owned()));
            },
        }
        i = i + 1;
    }
    let kept = drop_anonymous(parts);
    let assistant_message = if kept.len() == 0 {
        None
    } else {
        Some(Message::Assistant { id: message_id.clone(), content: kept })
    };
    let output_tokens: u64 = if usage.input_tokens == 0 && usage.output_tokens == 0 {
        usage.total_tokens
    } else {
        usage.output_tokens
    };
    Ok(
        NormalizedOutput {
            assistant_message,
            text,
            usage: Usage { input_tokens: usage.input_tokens, output_tokens },
            tool_calls,
        },
    )
}

/// The output of a model effect, from its normalized response and what encoding the message of
/// the response gave.
pub open spec fn preserved(
    output: NormalizedOutputView,
    encoded: Result<serde_json::Value, Seq<char>>,
) -> Result<ModelEffectOutputView, CanonicalErrorView> {
    match (output.assistant_message, encoded) {
        (Some(_), Err(reason)) => Err(
            CanonicalErrorView::Provider {
                message: "failed to preserve canonical assistant message: "@ + reason,
                retryable: false,
            },
        ),
        (message, encoded) => Ok(
            ModelEffectOutputView {
                assistant_message: if message is Some {
                    Some(encoded->Ok_0)
                } else {
                    None
                },
                text: output.text,
                usage: output.usage,
                tool_calls: output.tool_calls,
            },
        ),
    }
}

/// Keeps the encoded message of a normalized response. The encoding of a response without a
/// message is left unread.
pub fn preserve_output(output: NormalizedOutput, encoded: Result<serde_json::Value, String>) -> (r:
    Result<ModelEffectOutput, CanonicalError>)
    ensures
        (match r {
            Ok(output) => Ok::<ModelEffectOutputView, CanonicalErrorView>(output@),
            Err(error) => Err::<ModelEffectOutputView, CanonicalErrorView>(error@),
        }) == preserved(
            output@,
            match encoded {
                Ok(value) => Ok::<serde_json::Value, Seq<char>>(value),
                Err(reason) => Err::<serde_json::Value, Seq<char>>(reason@),
            },
        ),
{
    let assistant_message = if output.assistant_message.is_some() {
        match encoded {
            Ok(value) => Some(value),
            Err(reason) => {
                let mut message = "failed to preserve canonical assistant message: ".to_owned();
                message.append(reason.as_str());
                return Err(CanonicalError::Provider { message, retryable: false });
            },
        }
    } else {
        None
    };
    Ok(
        ModelEffectOutput {
            assistant_message,
            text: output.text,
            usage: output.usage,
            tool_calls: output.tool_calls,
        },
    )
}

/// An id that a response makes for a call without one is neither an id that the response states
/// anywhere nor the id of an earlier call.
pub proof fn law_made_ids_are_new(content: Seq<AssistantContentView>, i: int)
    requires
        0 <= i < calls_upto(content, content.len() as int).len(),
        calls_upto(content, content.len() as int)[i].provider_call_id is None,
    ensures
        ({
            let calls = calls_upto(content, content.len() as int);
            &&& !stated_ids(content).contains(calls[i].id)
            &&& forall|j: int| 0 <= j < i ==> (#[trigger] calls[j]).id != calls[i].id
        }),
{
    lemma_made_id(content, content.len() as int, i);
}

proof fn lemma_made_id(content: Seq<AssistantContentView>, n: int, i: int)
    requires
        0 <= n <= content.len(),
        0 <= i < calls_upto(content, n).len(),
        calls_upto(content, n)[i].provider_call_id is None,
    ensures
        ({
            let calls = calls_upto(content, n);
            &&& !stated_ids(content).contains(calls[i].id)
            &&& forall|j: int| 0 <= j < i ==> (#[trigger] calls[j]).id != calls[i].id
        }),
    decreases n,
{
    let before = calls_upto(content, n - 1);
    let calls = calls_upto(content, n);
    if i < before.len() {
        lemma_made_id(content, n - 1, i);
        assert forall|j: int| 0 <= j <= i implies calls[j] == before[j] by {}
    } else {
        let call = content[n - 1]->ToolCall_0;
        let used = stated_ids(content) + call_ids(before);
        law_unique_id_is_free(used, call.id, before.len());
        let id = calls[i].id;
        assert(id == unique_id(used, call.id, before.len()));
        if stated_ids(content).contains(id) {
            let k = choose|k: int|
                0 <= k < stated_ids(content).len() && stated_ids(content)[k] == id;
            assert(used[k] == id);
        }
        assert forall|j: int| 0 <= j < i implies (#[trigger] calls[j]).id != id by {
            assert(calls[j] == before[j]);
            assert(call_ids(before)[j] == before[j].id);
            assert(used[stated_ids(content).len() + j] == before[j].id);
        }
    }
}

/// What is picked from the first items stands first in what is picked from more items.
proof fn lemma_stated_prefix(content: Seq<AssistantContentView>, i: int, n: int)
    requires
        0 <= i <= n <= content.len(),
    ensures
        stated_ids(content.take(i)).len() <= stated_ids(content.take(n)).len(),
        stated_ids(content.take(i)) == stated_ids(content.take(n)).take(
            stated_ids(content.take(i)).len() as int,
        ),
    decreases n - i,
{
    let pick = |part: AssistantContentView| stated_id(part);
    if i < n {
        lemma_stated_prefix(content, i, n - 1);
        lemma_picked_next(content, n - 1, pick);
        let k = stated_ids(content.take(i)).len() as int;
        assert(stated_ids(content.take(n)).take(k) =~= stated_ids(content.take(n - 1)).take(k));
    } else {
        let ids = stated_ids(content.take(i));
        assert(ids.take(ids.len() as int) =~= ids);
    }
}

/// The id of a call that states one is among the stated ids.
proof fn lemma_stated_call(content: Seq<AssistantContentView>, n: int, i: int)
    requires
        0 <= n <= content.len(),
        0 <= i < calls_upto(content, n).len(),
        calls_upto(content, n)[i].provider_call_id is Some,
    ensures
        stated_ids(content.take(n)).contains(calls_upto(content, n)[i].id),
    decreases n,
{
    let pick = |part: AssistantContentView| stated_id(part);
    let before = calls_upto(content, n - 1);
    let ids = stated_ids(content.take(n));
    lemma_picked_next(content, n - 1, pick);
    if i < before.len() {
        lemma_stated_call(content, n - 1, i);
        let earlier = stated_ids(content.take(n - 1));
        assert(calls_upto(content, n)[i] == before[i]);
        let k = choose|k: int| 0 <= k < earlier.len() && earlier[k] == before[i].id;
        assert(ids[k] == before[i].id);
    } else {
        assert(ids.last() == calls_upto(content, n)[i].id);
        assert(ids[ids.len() - 1] == ids.last());
    }
}

proof fn lemma_ids_distinct(content: Seq<AssistantContentView>, n: int)
    requires
        0 <= n <= content.len(),
        stated_ids(content).no_duplicates(),
    ensures
        call_ids(calls_upto(content, n)).no_duplicates(),
    decreases n,
{
    let pick = |part: AssistantContentView| stated_id(part);
    if n > 0 {
        lemma_ids_distinct(content, n - 1);
        let before = calls_upto(content, n - 1);
        let calls = calls_upto(content, n);
        if calls != before {
            let last = calls.len() - 1;
            let id = calls[last].id;
            assert forall|j: int| 0 <= j < last implies (#[trigger] calls[j]).id != id by {
                assert(calls[j] == before[j]);
                if calls[last].provider_call_id is None {
                    lemma_made_id(content, n, last);
                } else {
                    lemma_picked_next(content, n - 1, pick);
                    lemma_stated_prefix(content, n, content.len() as int);
                    assert(content.take(content.len() as int) =~= content);
                    let earlier = stated_ids(content.take(n - 1));
                    let upto = stated_ids(content.take(n));
                    assert(upto == earlier.push(id));
                    let all = stated_ids(content);
                    assert(upto =~= all.take(upto.len() as int));
                    assert(upto[earlier.len() as int] == id);
                    assert(all[earlier.len() as int] == id);
                    if before[j].provider_call_id is Some {
                        lemma_stated_call(content, n - 1, j);
                        let k = choose|k: int| 0 <= k < earlier.len() && earlier[k] == before[j].id;
                        assert(upto[k] == before[j].id);
                        assert(all[k] == before[j].id);
                    } else {
                        lemma_made_id(content, n - 1, j);
                        assert(all.contains(id));
                    }
                }
            }
            assert(call_ids(calls) =~= call_ids(before).push(id));
        }
    }
}

/// Where the ids that a response states are distinct, the ids of all its calls are.
pub proof fn law_call_ids_are_distinct(content: Seq<AssistantContentView>)
    requires
        stated_ids(content).no_duplicates(),
    ensures
        call_ids(calls_upto(content, content.len() as int)).no_duplicates(),
{
    lemma_ids_distinct(content, content.len() as int);
}

} // verus!
