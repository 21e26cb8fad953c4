//! What becomes of the response of a provider.

use vstd::prelude::*;

use crate::effect::{
    CanonicalErrorView, ModelEffectOutputView, ModelToolCallView, ToolEffectOutputView,
};
use crate::executor::CorrelatedCallView;
use crate::fold::{lemma_picked_members, picked};
use crate::json::{json_object, json_text};
use crate::message::{
    AssistantContentView, CompletionUsage, DecodedEntryView, NormalizedOutputView, ReasoningView,
    ToolCallView,
};
use crate::normalize::{
    call_ids, calls_upto, canonical_call, has_identified, is_identified, kept_parts, last_block,
    normalized, parts_upto, preserved, same_block, stated_id, stated_ids, text_upto,
    unless_anonymous,
};
use crate::correlate::{
    correlated_upto, correlation, internal_ids, tool_events_of,
};
use crate::report::LocalStreamEventView;
use crate::text::decimal_text;
use crate::unique::law_taken_ids_get_the_first_free_number;

verus! {

/// Whether no part of a response is an image.
pub open spec fn is_readable(content: Seq<AssistantContentView>) -> bool {
    forall|i: int| 0 <= i < content.len() ==> !(#[trigger] content[i] is Image)
}

/// A response with an image is refused, and each other one has an output.
pub proof fn law_images_are_refused(
    content: Seq<AssistantContentView>,
    usage: CompletionUsage,
    message_id: Option<Seq<char>>,
)
    ensures
        is_readable(content) ==> normalized(content, usage, message_id) is Ok,
        !is_readable(content) ==> normalized(content, usage, message_id) == Err::<
            NormalizedOutputView,
            CanonicalErrorView,
        >(CanonicalErrorView::UnsupportedModelContent("assistant image"@)),
{
}

proof fn lemma_text_prefix(a: Seq<AssistantContentView>, b: Seq<AssistantContentView>, n: int)
    requires
        0 <= n <= a.len(),
        n <= b.len(),
        a.take(n) == b.take(n),
    ensures
        text_upto(a, n) == text_upto(b, n),
    decreases n,
{
    if n > 0 {
        assert(a[n - 1] == a.take(n)[n - 1] && b[n - 1] == b.take(n)[n - 1]);
        assert(a.take(n - 1) =~= a.take(n).drop_last());
        assert(b.take(n - 1) =~= b.take(n).drop_last());
        lemma_text_prefix(a, b, n - 1);
    }
}

/// One more part of a response adds its text to the text of those before it, where it is a text,
/// and nothing otherwise. A response without parts has no text.
pub proof fn law_texts_are_joined_in_order(
    content: Seq<AssistantContentView>,
    part: AssistantContentView,
    usage: CompletionUsage,
    message_id: Option<Seq<char>>,
)
    requires
        is_readable(content),
        !(part is Image),
    ensures
        ({
            let before = normalized(content, usage, message_id);
            let after = normalized(content.push(part), usage, message_id);
            &&& before is Ok
            &&& after is Ok
            &&& content.len() == 0 ==> before->Ok_0.text.len() == 0
            &&& part is Text ==> after->Ok_0.text == before->Ok_0.text + part->Text_0
            &&& !(part is Text) ==> after->Ok_0.text == before->Ok_0.text
        }),
{
    let longer = content.push(part);
    assert forall|i: int| 0 <= i < longer.len() implies !(#[trigger] longer[i] is Image) by {
        if i < content.len() {
            assert(longer[i] == content[i]);
        }
    }
    assert(content.take(content.len() as int) =~= longer.take(content.len() as int));
    lemma_text_prefix(content, longer, content.len() as int);
}

/// Number of tool calls among the first parts of a response.
pub open spec fn calls_before(content: Seq<AssistantContentView>, n: int) -> nat
    decreases n,
{
    if n <= 0 {
        0
    } else if content[n - 1] is ToolCall {
        calls_before(content, n - 1) + 1
    } else {
        calls_before(content, n - 1)
    }
}

proof fn lemma_calls_count(content: Seq<AssistantContentView>, n: int)
    requires
        0 <= n <= content.len(),
    ensures
        calls_upto(content, n).len() == calls_before(content, n),
    decreases n,
{
    if n > 0 {
        lemma_calls_count(content, n - 1);
    }
}

proof fn lemma_call_at(content: Seq<AssistantContentView>, p: int, n: int)
    requires
        0 <= p < n <= content.len(),
        content[p] is ToolCall,
    ensures
        calls_before(content, p) < calls_upto(content, n).len(),
        calls_upto(content, n)[calls_before(content, p) as int] == canonical_call(
            content[p]->ToolCall_0,
            stated_ids(content) + call_ids(calls_upto(content, p)),
            calls_before(content, p),
        ),
    decreases n,
{
    lemma_calls_count(content, n);
    lemma_calls_count(content, p);
    if p < n - 1 {
        lemma_call_at(content, p, n - 1);
    }
}

/// A response has a canonical call for each of its tool calls, in their order. Each keeps the name
/// and the arguments of the call; arguments that are null become an empty object. It goes back to
/// the provider under the id of the call, or, where the call states a correlation id, under that
/// id and the name of the tool.
pub proof fn law_calls_keep_what_the_provider_said(
    content: Seq<AssistantContentView>,
    usage: CompletionUsage,
    message_id: Option<Seq<char>>,
    p: int,
)
    requires
        is_readable(content),
        0 <= p < content.len(),
        content[p] is ToolCall,
    ensures
        ({
            let calls = normalized(content, usage, message_id)->Ok_0.tool_calls;
            let k = calls_before(content, p) as int;
            let given = content[p]->ToolCall_0;
            &&& calls.len() == calls_before(content, content.len() as int)
            &&& k < calls.len()
            &&& calls[k].name == given.function.name
            &&& json_text(given.function.arguments) != "null"@ ==> calls[k].arguments
                == given.function.arguments
            &&& json_text(given.function.arguments) == "null"@ ==> calls[k].arguments
                == json_object(Seq::empty())
            &&& calls[k].provider_call_id == given.call_id
            &&& given.call_id is None ==> calls[k].provider_result_id == given.id
            &&& given.call_id is Some ==> calls[k].provider_result_id == given.function.name
            &&& given.call_id is Some ==> calls[k].id == given.call_id->0
        }),
{
    lemma_calls_count(content, content.len() as int);
    lemma_call_at(content, p, content.len() as int);
}

/// Whether an id is stated by some tool call of a response.
pub open spec fn states(content: Seq<AssistantContentView>, id: Seq<char>) -> bool {
    exists|i: int|
        0 <= i < content.len() && #[trigger] content[i] is ToolCall
            && content[i]->ToolCall_0.call_id == Some(id)
}

proof fn lemma_states(content: Seq<AssistantContentView>, id: Seq<char>)
    ensures
        stated_ids(content).contains(id) <==> states(content, id),
{
    let pick = |part: AssistantContentView| stated_id(part);
    lemma_picked_members(content, pick, id);
    if states(content, id) {
        let i = choose|i: int|
            0 <= i < content.len() && #[trigger] content[i] is ToolCall
                && content[i]->ToolCall_0.call_id == Some(id);
        assert(pick(content[i]) == Some(id));
    }
}

/// A call that states no correlation id is known by its own id, where that is neither stated by a
/// call of the response nor the id of an earlier one; otherwise by its own id with a number behind
/// it.
pub proof fn law_calls_are_known_by_their_own_id(
    content: Seq<AssistantContentView>,
    usage: CompletionUsage,
    message_id: Option<Seq<char>>,
    p: int,
)
    requires
        is_readable(content),
        0 <= p < content.len(),
        content[p] is ToolCall,
        content[p]->ToolCall_0.call_id is None,
    ensures
        ({
            let calls = normalized(content, usage, message_id)->Ok_0.tool_calls;
            let k = calls_before(content, p) as int;
            let own = content[p]->ToolCall_0.id;
            let taken = states(content, own) || exists|j: int|
                0 <= j < k && (#[trigger] calls[j]).id == own;
            &&& k < calls.len()
            &&& !taken ==> calls[k].id == own
            &&& taken ==> exists|m: nat|
                m >= k && calls[k].id == #[trigger] (own + "-"@ + decimal_text(m))
        }),
{
    let n = content.len() as int;
    let calls = calls_upto(content, n);
    let k = calls_before(content, p) as int;
    let own = content[p]->ToolCall_0.id;
    lemma_calls_count(content, n);
    lemma_calls_count(content, p);
    lemma_call_at(content, p, n);
    lemma_states(content, own);
    lemma_calls_prefix(content, p, n);
    let before = calls_upto(content, p);
    let used = stated_ids(content) + call_ids(before);
    assert(used.contains(own) <==> states(content, own) || exists|j: int|
        0 <= j < k && (#[trigger] calls[j]).id == own) by {
        if used.contains(own) && !states(content, own) {
            let m = choose|m: int| 0 <= m < used.len() && used[m] == own;
            if m < stated_ids(content).len() {
                assert(stated_ids(content)[m] == own);
            }
            let j = m - stated_ids(content).len();
            assert(call_ids(before)[j] == own);
            assert(calls[j].id == own);
        }
        if states(content, own) {
            let m = choose|m: int| 0 <= m < stated_ids(content).len() && stated_ids(content)[m]
                == own;
            assert(used[m] == own);
        }
        if exists|j: int| 0 <= j < k && (#[trigger] calls[j]).id == own {
            let j = choose|j: int| 0 <= j < k && (#[trigger] calls[j]).id == own;
            assert(call_ids(before)[j] == own);
            assert(used[stated_ids(content).len() + j] == own);
        }
    }
    if used.contains(own) {
        let m = law_taken_ids_get_the_first_free_number(used, own, k as nat);
        assert(m >= k && calls[k].id == own + "-"@ + decimal_text(m));
    }
}

proof fn lemma_calls_prefix(content: Seq<AssistantContentView>, p: int, n: int)
    requires
        0 <= p <= n <= content.len(),
    ensures
        calls_upto(content, p).len() <= calls_upto(content, n).len(),
        forall|j: int|
            0 <= j < calls_upto(content, p).len() ==> #[trigger] calls_upto(content, n)[j]
                == calls_upto(content, p)[j],
    decreases n - p,
{
    if p < n {
        lemma_calls_prefix(content, p, n - 1);
    }
}

/// Tokens are taken as the provider reports them; where it reports only a total, that counts as
/// output.
pub proof fn law_usage_is_taken_from_the_provider(
    content: Seq<AssistantContentView>,
    usage: CompletionUsage,
    message_id: Option<Seq<char>>,
)
    requires
        is_readable(content),
    ensures
        ({
            let taken = normalized(content, usage, message_id)->Ok_0.usage;
            &&& taken.input_tokens == usage.input_tokens
            &&& usage.input_tokens > 0 || usage.output_tokens > 0 ==> taken.output_tokens
                == usage.output_tokens
            &&& usage.input_tokens == 0 && usage.output_tokens == 0 ==> taken.output_tokens
                == usage.total_tokens
        }),
{
}

/// The parts of a response that are not reasoning.
pub open spec fn said(content: Seq<AssistantContentView>) -> Seq<AssistantContentView>
    decreases content.len(),
{
    if content.len() == 0 {
        Seq::empty()
    } else if content.last() is Reasoning {
        said(content.drop_last())
    } else {
        said(content.drop_last()).push(content.last())
    }
}

proof fn lemma_said_update(parts: Seq<AssistantContentView>, i: int, part: AssistantContentView)
    requires
        0 <= i < parts.len(),
        parts[i] is Reasoning,
        part is Reasoning,
    ensures
        said(parts.update(i, part)) == said(parts),
    decreases parts.len(),
{
    let changed = parts.update(i, part);
    if i < parts.len() - 1 {
        assert(changed.drop_last() =~= parts.drop_last().update(i, part));
        lemma_said_update(parts.drop_last(), i, part);
    } else {
        assert(changed.drop_last() =~= parts.drop_last());
    }
}

proof fn lemma_last_block(parts: Seq<AssistantContentView>, block: ReasoningView, n: int)
    requires
        0 <= n <= parts.len(),
    ensures
        match last_block(parts, block, n) {
            Some(i) => 0 <= i < n && same_block(parts[i], block) && parts[i] is Reasoning,
            None => forall|i: int| 0 <= i < n ==> !same_block(#[trigger] parts[i], block),
        },
    decreases n,
{
    if n > 0 && !same_block(parts[n - 1], block) {
        lemma_last_block(parts, block, n - 1);
    }
}

proof fn lemma_said_parts(content: Seq<AssistantContentView>, n: int)
    requires
        0 <= n <= content.len(),
    ensures
        said(parts_upto(content, n)) == said(content.take(n)),
    decreases n,
{
    if n > 0 {
        lemma_said_parts(content, n - 1);
        let parts = parts_upto(content, n - 1);
        let part = content[n - 1];
        assert(content.take(n).drop_last() =~= content.take(n - 1));
        assert(content.take(n).last() == part);
        match part {
            AssistantContentView::Reasoning(block) => {
                lemma_last_block(parts, block, parts.len() as int);
                match last_block(parts, block, parts.len() as int) {
                    Some(i) => lemma_said_update(parts, i, part),
                    None => {
                        assert(parts.push(part).drop_last() =~= parts);
                    },
                }
            },
            _ => {
                assert(parts.push(part).drop_last() =~= parts);
            },
        }
    }
}

proof fn lemma_said_picked(parts: Seq<AssistantContentView>)
    ensures
        said(picked(parts, |part: AssistantContentView| unless_anonymous(part))) == said(parts),
    decreases parts.len(),
{
    let pick = |part: AssistantContentView| unless_anonymous(part);
    if parts.len() > 0 {
        let front = parts.drop_last();
        lemma_said_picked(front);
        let rest = picked(front, pick);
        if pick(parts.last()) is Some {
            assert(rest.push(parts.last()).drop_last() =~= rest);
        }
    }
}

proof fn lemma_blocks(content: Seq<AssistantContentView>, n: int)
    requires
        0 <= n <= content.len(),
    ensures
        forall|i: int|
            0 <= i < n && content[i] is Reasoning ==> exists|j: int|
                0 <= j < parts_upto(content, n).len() && same_block(
                    #[trigger] parts_upto(content, n)[j],
                    (#[trigger] content[i])->Reasoning_0,
                ),
        forall|j: int|
            0 <= j < parts_upto(content, n).len() ==> exists|i: int|
                0 <= i < n && #[trigger] content[i] == #[trigger] parts_upto(content, n)[j],
        forall|i: int, j: int|
            0 <= i < j < parts_upto(content, n).len() && parts_upto(content, n)[j] is Reasoning
                ==> !same_block(
                #[trigger] parts_upto(content, n)[i],
                (#[trigger] parts_upto(content, n)[j])->Reasoning_0,
            ),
    decreases n,
{
    if n > 0 {
        lemma_blocks(content, n - 1);
        let before = parts_upto(content, n - 1);
        let parts = parts_upto(content, n);
        let part = content[n - 1];
        let place: int = match part {
            AssistantContentView::Reasoning(block) => {
                lemma_last_block(before, block, before.len() as int);
                match last_block(before, block, before.len() as int) {
                    Some(i) => i,
                    None => before.len() as int,
                }
            },
            _ => before.len() as int,
        };
        assert(parts[place] == part);
        assert forall|k: int| 0 <= k < before.len() && k != place implies parts[k]
            == #[trigger] before[k] by {}
        assert forall|i: int| 0 <= i < n && content[i] is Reasoning implies exists|j: int|
            0 <= j < parts.len() && same_block(
                #[trigger] parts[j],
                (#[trigger] content[i])->Reasoning_0,
            ) by {
            if i < n - 1 {
                let j = choose|j: int|
                    0 <= j < before.len() && same_block(
                        #[trigger] before[j],
                        content[i]->Reasoning_0,
                    );
                if j == place {
                    assert(same_block(parts[place], content[i]->Reasoning_0));
                } else {
                    assert(parts[j] == before[j]);
                }
            } else {
                assert(same_block(parts[place], content[i]->Reasoning_0));
            }
        }
        assert forall|j: int| 0 <= j < parts.len() implies exists|i: int|
            0 <= i < n && #[trigger] content[i] == #[trigger] parts[j] by {
            if j != place {
                assert(parts[j] == before[j]);
                let i = choose|i: int|
                    0 <= i < n - 1 && #[trigger] content[i] == before[j];
                assert(content[i] == parts[j]);
            } else {
                assert(content[n - 1] == parts[j]);
            }
        }
        assert forall|i: int, j: int|
            0 <= i < j < parts.len() && parts[j] is Reasoning implies !same_block(
            #[trigger] parts[i],
            (#[trigger] parts[j])->Reasoning_0,
        ) by {
            if i != place && j != place {
                assert(parts[i] == before[i] && parts[j] == before[j]);
            } else if j == place {
                if place < before.len() {
                    assert(parts[i] == before[i]);
                    assert(!same_block(before[i], before[place]->Reasoning_0));
                } else {
                    assert(parts[i] == before[i]);
                }
            } else {
                assert(parts[j] == before[j]);
                assert(!same_block(before[place], before[j]->Reasoning_0));
            }
        }
    }
}

/// Whether some block of reasoning in a response has an id.
pub open spec fn names_reasoning(content: Seq<AssistantContentView>) -> bool {
    exists|i: int|
        0 <= i < content.len() && #[trigger] content[i] is Reasoning && content[i]->Reasoning_0.id
            is Some
}

proof fn lemma_names_reasoning(content: Seq<AssistantContentView>)
    ensures
        names_reasoning(content) == has_identified(parts_upto(content, content.len() as int)),
{
    let n = content.len() as int;
    let parts = parts_upto(content, n);
    lemma_blocks(content, n);
    if names_reasoning(content) {
        let i = choose|i: int|
            0 <= i < content.len() && #[trigger] content[i] is Reasoning
                && content[i]->Reasoning_0.id is Some;
        let j = choose|j: int|
            0 <= j < parts.len() && same_block(#[trigger] parts[j], content[i]->Reasoning_0);
        assert(is_identified(parts[j]));
    }
    if has_identified(parts) {
        let j = choose|j: int| 0 <= j < parts.len() && is_identified(#[trigger] parts[j]);
        let i = choose|i: int| 0 <= i < n && #[trigger] content[i] == parts[j];
        assert(content[i] is Reasoning);
    }
}

proof fn lemma_kept_part(content: Seq<AssistantContentView>, j: int)
    requires
        0 <= j < kept_parts(content).len(),
    ensures
        content.contains(kept_parts(content)[j]),
        names_reasoning(content) && kept_parts(content)[j] is Reasoning ==> kept_parts(
            content,
        )[j]->Reasoning_0.id is Some,
{
    let n = content.len() as int;
    let parts = parts_upto(content, n);
    let kept = kept_parts(content);
    let pick = |part: AssistantContentView| unless_anonymous(part);
    lemma_blocks(content, n);
    lemma_names_reasoning(content);
    let m = if names_reasoning(content) {
        lemma_picked_members(parts, pick, kept[j]);
        assert(kept.contains(kept[j]));
        choose|m: int| 0 <= m < parts.len() && #[trigger] pick(parts[m]) == Some(kept[j])
    } else {
        j
    };
    assert(parts[m] == kept[j]);
    let i = choose|i: int| 0 <= i < n && #[trigger] content[i] == parts[m];
    assert(content[i] == kept[j]);
}

proof fn lemma_kept_block(content: Seq<AssistantContentView>, i: int) -> (j: int)
    requires
        0 <= i < content.len(),
        content[i] is Reasoning,
        names_reasoning(content) ==> content[i]->Reasoning_0.id is Some,
    ensures
        0 <= j < kept_parts(content).len(),
        kept_parts(content)[j] is Reasoning,
        kept_parts(content)[j]->Reasoning_0.id == content[i]->Reasoning_0.id,
        kept_parts(content)[j]->Reasoning_0.display_text == content[i]->Reasoning_0.display_text,
{
    let n = content.len() as int;
    let parts = parts_upto(content, n);
    let kept = kept_parts(content);
    let pick = |part: AssistantContentView| unless_anonymous(part);
    lemma_blocks(content, n);
    lemma_names_reasoning(content);
    let m = choose|m: int|
        0 <= m < parts.len() && same_block(#[trigger] parts[m], content[i]->Reasoning_0);
    if names_reasoning(content) {
        assert(pick(parts[m]) == Some(parts[m]));
        lemma_picked_members(parts, pick, parts[m]);
        choose|j: int| 0 <= j < kept.len() && kept[j] == parts[m]
    } else {
        m
    }
}

/// The message of a response holds each of its parts that is not reasoning, in order, under the
/// id of the message. A response without parts has no message.
pub proof fn law_messages_keep_what_was_said(
    content: Seq<AssistantContentView>,
    usage: CompletionUsage,
    message_id: Option<Seq<char>>,
)
    requires
        is_readable(content),
    ensures
        ({
            let message = normalized(content, usage, message_id)->Ok_0.assistant_message;
            &&& content.len() == 0 ==> message is None
            &&& said(content).len() > 0 ==> message is Some
            &&& message is Some ==> {
                &&& message->0 is Assistant
                &&& message->0->Assistant_id == message_id
                &&& message->0->Assistant_content.len() > 0
                &&& said(message->0->Assistant_content) == said(content)
            }
        }),
{
    let n = content.len() as int;
    assert(content.take(n) =~= content);
    lemma_said_parts(content, n);
    lemma_said_picked(parts_upto(content, n));
    assert(said(kept_parts(content)) == said(content));
}

/// Each block of reasoning of a response stands in its message; blocks without an id are left out
/// where some block has one. Nothing stands in the message that was not said.
pub proof fn law_messages_keep_reasoning(
    content: Seq<AssistantContentView>,
    usage: CompletionUsage,
    message_id: Option<Seq<char>>,
)
    requires
        is_readable(content),
    ensures
        ({
            let message = normalized(content, usage, message_id)->Ok_0.assistant_message;
            let kept = message->0->Assistant_content;
            &&& message is Some ==> forall|j: int|
                0 <= j < kept.len() ==> content.contains(#[trigger] kept[j]) && (names_reasoning(
                    content,
                ) && kept[j] is Reasoning ==> kept[j]->Reasoning_0.id is Some)
            &&& forall|i: int|
                0 <= i < content.len() && #[trigger] content[i] is Reasoning && (names_reasoning(
                    content,
                ) ==> content[i]->Reasoning_0.id is Some) ==> message is Some && exists|j: int|
                    0 <= j < kept.len() && #[trigger] kept[j] is Reasoning
                        && kept[j]->Reasoning_0.id == content[i]->Reasoning_0.id
                        && kept[j]->Reasoning_0.display_text
                        == content[i]->Reasoning_0.display_text
        }),
{
    let kept = kept_parts(content);
    let message = normalized(content, usage, message_id)->Ok_0.assistant_message;
    assert(message is Some ==> message->0->Assistant_content == kept);
    assert forall|j: int| 0 <= j < kept.len() implies content.contains(#[trigger] kept[j]) && (
    names_reasoning(content) && kept[j] is Reasoning ==> kept[j]->Reasoning_0.id is Some) by {
        lemma_kept_part(content, j);
    }
    assert forall|i: int|
        0 <= i < content.len() && #[trigger] content[i] is Reasoning && (names_reasoning(content)
            ==> content[i]->Reasoning_0.id is Some) implies message is Some && exists|j: int|
        0 <= j < kept.len() && #[trigger] kept[j] is Reasoning && kept[j]->Reasoning_0.id
            == content[i]->Reasoning_0.id && kept[j]->Reasoning_0.display_text
            == content[i]->Reasoning_0.display_text by {
        let j = lemma_kept_block(content, i);
        assert(kept[j] is Reasoning);
    }
}

/// No two blocks of reasoning in the message of a response have the same id and text.
pub proof fn law_reasoning_is_kept_once(
    content: Seq<AssistantContentView>,
    i: int,
    j: int,
)
    requires
        0 <= i < j < parts_upto(content, content.len() as int).len(),
        parts_upto(content, content.len() as int)[i] is Reasoning,
        parts_upto(content, content.len() as int)[j] is Reasoning,
    ensures
        ({
            let parts = parts_upto(content, content.len() as int);
            parts[i]->Reasoning_0.id != parts[j]->Reasoning_0.id
                || parts[i]->Reasoning_0.display_text != parts[j]->Reasoning_0.display_text
        }),
{
    lemma_blocks(content, content.len() as int);
    let parts = parts_upto(content, content.len() as int);
    assert(!same_block(parts[i], parts[j]->Reasoning_0));
}

/// The output of a model effect is the normalized response, with the message as it was encoded. A
/// message that could not be encoded fails the effect.
pub proof fn law_outputs_preserve_the_message(
    output: NormalizedOutputView,
    encoded: Result<serde_json::Value, Seq<char>>,
)
    ensures
        output.assistant_message is Some && encoded is Err ==> preserved(output, encoded) == Err::<
            ModelEffectOutputView,
            CanonicalErrorView,
        >(
            CanonicalErrorView::Provider {
                message: "failed to preserve canonical assistant message: "@ + encoded->Err_0,
                retryable: false,
            },
        ),
        output.assistant_message is None || encoded is Ok ==> {
            let kept = preserved(output, encoded);
            &&& kept is Ok
            &&& kept->Ok_0.text == output.text
            &&& kept->Ok_0.usage == output.usage
            &&& kept->Ok_0.tool_calls == output.tool_calls
            &&& output.assistant_message is Some ==> kept->Ok_0.assistant_message == Some(
                encoded->Ok_0,
            )
            &&& output.assistant_message is None ==> kept->Ok_0.assistant_message is None
        },
{
}

proof fn lemma_correlated_at(
    calls: Seq<ModelToolCallView>,
    observed: Seq<(ToolCallView, Seq<char>)>,
    n: int,
    i: int,
)
    requires
        0 <= i < n <= calls.len(),
    ensures
        correlated_upto(calls, observed, n).len() == n,
        correlated_upto(calls, observed, n)[i] == correlated_upto(calls, observed, i + 1)[i],
        correlated_upto(calls, observed, i).len() == i,
        forall|j: int|
            0 <= j < i ==> #[trigger] correlated_upto(calls, observed, n)[j]
                == correlated_upto(calls, observed, i)[j],
    decreases n,
{
    reveal_with_fuel(correlated_upto, 2);
    if i < n - 1 {
        lemma_correlated_at(calls, observed, n - 1, i);
    } else if i > 0 {
        lemma_correlated_at(calls, observed, n - 1, i - 1);
    }
}

/// Each call of a streamed response is reported once, in order, under the id by which the run knows
/// it. It is the call that was observed in the stream at its position, or else one made from what
/// the run knows; its internal id is the observed one, unless an earlier call has it.
pub proof fn law_streamed_calls_are_correlated_by_position(
    calls: Seq<ModelToolCallView>,
    observed: Seq<(ToolCallView, Seq<char>)>,
    i: int,
)
    requires
        0 <= i < calls.len(),
    ensures
        ({
            let all = correlated_upto(calls, observed, calls.len() as int);
            let id = if i < observed.len() {
                observed[i].1
            } else {
                calls[i].id
            };
            &&& all.len() == calls.len()
            &&& all[i].call_id == calls[i].id
            &&& i < observed.len() ==> all[i].tool_call == observed[i].0
            &&& i >= observed.len() ==> {
                &&& all[i].tool_call.id == calls[i].provider_result_id
                &&& all[i].tool_call.call_id == calls[i].provider_call_id
                &&& all[i].tool_call.function.name == calls[i].name
                &&& all[i].tool_call.function.arguments == calls[i].arguments
            }
            &&& (forall|j: int|
                0 <= j < i ==> (#[trigger] all[j]).internal_call_id != id)
                ==> all[i].internal_call_id == id
        }),
{
    let n = calls.len() as int;
    lemma_correlated_at(calls, observed, n, i);
    let all = correlated_upto(calls, observed, n);
    let before = correlated_upto(calls, observed, i);
    let id = if i < observed.len() {
        observed[i].1
    } else {
        calls[i].id
    };
    if forall|j: int| 0 <= j < i ==> (#[trigger] all[j]).internal_call_id != id {
        if internal_ids(before).contains(id) {
            let k = choose|k: int| 0 <= k < internal_ids(before).len() && internal_ids(before)[k]
                == id;
            assert(all[k].internal_call_id == id);
        }
    }
}

proof fn lemma_correlation(calls: Seq<CorrelatedCallView>, id: Seq<char>, n: int, k: int)
    requires
        0 <= k < n <= calls.len(),
        calls[k].call_id == id,
        forall|j: int| k < j < n ==> (#[trigger] calls[j]).call_id != id,
    ensures
        correlation(calls, id, n) == Some(calls[k]),
    decreases n,
{
    if k < n - 1 {
        lemma_correlation(calls, id, n - 1, k);
    }
}

proof fn lemma_no_correlation(calls: Seq<CorrelatedCallView>, id: Seq<char>, n: int)
    requires
        0 <= n <= calls.len(),
        forall|j: int| 0 <= j < n ==> (#[trigger] calls[j]).call_id != id,
    ensures
        correlation(calls, id, n) is None,
    decreases n,
{
    if n > 0 {
        lemma_no_correlation(calls, id, n - 1);
    }
}

/// The result of a streamed call is reported behind the call, under its internal id and with the
/// ids of the provider; the result of another call is reported alone.
pub proof fn law_results_are_reported_with_their_call(
    calls: Seq<CorrelatedCallView>,
    output: ToolEffectOutputView,
    decoded: DecodedEntryView,
    k: int,
)
    requires
        forall|j: int|
            0 <= j < calls.len() && j != k ==> (#[trigger] calls[j]).call_id != output.call_id,
    ensures
        ({
            let events = tool_events_of(calls, output, decoded);
            let result = events.last();
            &&& events.len() > 0
            &&& result is ToolResult
            &&& result->ToolResult_tool_result.id == output.provider_result_id
            &&& result->ToolResult_tool_result.call_id == output.provider_call_id
            &&& decoded is Contents ==> result->ToolResult_tool_result.content
                == decoded->Contents_0
            &&& !(decoded is Contents) ==> result->ToolResult_tool_result.content.len() == 1
                && result->ToolResult_tool_result.content[0]
                == crate::message::ToolResultContentView::Text(output.presentation)
            &&& 0 <= k < calls.len() && calls[k].call_id == output.call_id ==> {
                &&& events.len() == 2
                &&& events[0] == (LocalStreamEventView::ToolCommitted {
                    tool_call: calls[k].tool_call,
                    internal_call_id: calls[k].internal_call_id,
                })
                &&& result->ToolResult_internal_call_id == calls[k].internal_call_id
            }
            &&& !(0 <= k < calls.len() && calls[k].call_id == output.call_id) ==> {
                &&& events.len() == 1
                &&& result->ToolResult_internal_call_id == output.call_id
            }
        }),
{
    let n = calls.len() as int;
    if 0 <= k < n && calls[k].call_id == output.call_id {
        lemma_correlation(calls, output.call_id, n, k);
    } else {
        lemma_no_correlation(calls, output.call_id, n);
    }
}

proof fn lemma_last_said(content: Seq<AssistantContentView>, n: int, i: int)
    requires
        0 <= i < n <= content.len(),
        content[i] is Reasoning,
        forall|j: int|
            i < j < n && content[j] is Reasoning ==> !same_block(
                content[i],
                (#[trigger] content[j])->Reasoning_0,
            ),
    ensures
        parts_upto(content, n).contains(content[i]),
    decreases n,
{
    let before = parts_upto(content, n - 1);
    let parts = parts_upto(content, n);
    let part = content[n - 1];
    if let AssistantContentView::Reasoning(block) = part {
        lemma_last_block(before, block, before.len() as int);
    }
    if i < n - 1 {
        lemma_last_said(content, n - 1, i);
        let k = choose|k: int| 0 <= k < before.len() && before[k] == content[i];
        assert(parts[k] == content[i]);
    } else {
        match part {
            AssistantContentView::Reasoning(block) => match last_block(
                before,
                block,
                before.len() as int,
            ) {
                Some(k) => {
                    assert(parts[k] == part);
                },
                None => {
                    assert(parts[before.len() as int] == part);
                },
            },
            _ => {},
        }
    }
}

/// Of blocks of reasoning with one id and text the last that was said stands in the message, with
/// all that came with it.
pub proof fn law_the_last_said_reasoning_is_kept(
    content: Seq<AssistantContentView>,
    usage: CompletionUsage,
    message_id: Option<Seq<char>>,
    i: int,
)
    requires
        is_readable(content),
        0 <= i < content.len(),
        content[i] is Reasoning,
        names_reasoning(content) ==> content[i]->Reasoning_0.id is Some,
        forall|j: int|
            i < j < content.len() && (#[trigger] content[j]) is Reasoning ==> !(
            content[j]->Reasoning_0.id == content[i]->Reasoning_0.id
                && content[j]->Reasoning_0.display_text == content[i]->Reasoning_0.display_text),
    ensures
        ({
            let message = normalized(content, usage, message_id)->Ok_0.assistant_message;
            message is Some && message->0->Assistant_content.contains(content[i])
        }),
{
    let n = content.len() as int;
    let parts = parts_upto(content, n);
    let kept = kept_parts(content);
    let pick = |part: AssistantContentView| unless_anonymous(part);
    assert forall|j: int|
        i < j < n && content[j] is Reasoning implies !same_block(
        content[i],
        (#[trigger] content[j])->Reasoning_0,
    ) by {
        assert(content[j] is Reasoning);
    }
    lemma_last_said(content, n, i);
    lemma_names_reasoning(content);
    if names_reasoning(content) {
        let k = choose|k: int| 0 <= k < parts.len() && parts[k] == content[i];
        assert(pick(parts[k]) == Some(content[i]));
        lemma_picked_members(parts, pick, content[i]);
    }
    assert(kept.contains(content[i]));
}

} // verus!
