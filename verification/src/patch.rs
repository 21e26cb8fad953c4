//! Reduction of request patches, and their effect on a model request.

use vstd::prelude::*;

use crate::capability::{RequestPatch, RequestPatchView};
use crate::effect::{ModelEffectInput, ModelEffectInputView, ToolDecision, ToolDecisionView};
use crate::json::{extend_object, json_is_object, json_merged};

verus! {

/// Provider parameters after later ones: two objects are merged, with the later members in place
/// of earlier ones of the same name, and any other later value replaces the earlier.
pub open spec fn merged_params(
    earlier: Option<serde_json::Value>,
    later: Option<serde_json::Value>,
) -> Option<serde_json::Value> {
    match (earlier, later) {
        (Some(base), Some(over)) => if json_is_object(base) && json_is_object(over) {
            Some(json_merged(base, over))
        } else {
            Some(over)
        },
        (base, None) => base,
        (None, over) => over,
    }
}

/// The names that are allowed.
pub open spec fn allowed_names(names: Seq<Seq<char>>, allowed: Seq<Seq<char>>) -> Seq<Seq<char>>
    decreases names.len(),
{
    if names.len() == 0 {
        Seq::empty()
    } else {
        let rest = allowed_names(names.drop_last(), allowed);
        if allowed.contains(names.last()) {
            rest.push(names.last())
        } else {
            rest
        }
    }
}

/// The tools whose names are allowed, in their order.
pub open spec fn allowed_tools(tools: Seq<ToolDecisionView>, allowed: Seq<Seq<char>>) -> Seq<
    ToolDecisionView,
>
    decreases tools.len(),
{
    if tools.len() == 0 {
        Seq::empty()
    } else {
        let rest = allowed_tools(tools.drop_last(), allowed);
        if allowed.contains(tools.last().name) {
            rest.push(tools.last())
        } else {
            rest
        }
    }
}

/// The later value, or else the earlier one.
pub open spec fn last_written<V>(earlier: Option<V>, later: Option<V>) -> Option<V> {
    match later {
        Some(value) => Some(value),
        None => earlier,
    }
}

impl RequestPatchView {
    /// The patch that does what this one and then a later one do: context is appended, provider
    /// parameters are merged, allow-lists are intersected, and of other values the last one stays.
    pub open spec fn followed_by(self, later: RequestPatchView) -> RequestPatchView {
        RequestPatchView {
            instructions: last_written(self.instructions, later.instructions),
            temperature_bits: last_written(self.temperature_bits, later.temperature_bits),
            max_tokens: last_written(self.max_tokens, later.max_tokens),
            tool_choice: last_written(self.tool_choice, later.tool_choice),
            active_tools: match (self.active_tools, later.active_tools) {
                (Some(names), Some(allowed)) => Some(allowed_names(names, allowed)),
                (names, None) => names,
                (None, names) => names,
            },
            additional_params: merged_params(self.additional_params, later.additional_params),
            extra_context: self.extra_context + later.extra_context,
            history: last_written(self.history, later.history),
        }
    }

    /// A model request with the patch applied. Another history precedes the current prompt, which
    /// is the last entry of the request's own.
    pub open spec fn applied_to(self, input: ModelEffectInputView) -> ModelEffectInputView {
        ModelEffectInputView {
            instructions: match self.instructions {
                Some(instructions) => instructions,
                None => input.instructions,
            },
            temperature_bits: last_written(input.temperature_bits, self.temperature_bits),
            max_tokens: last_written(input.max_tokens, self.max_tokens),
            tool_choice: last_written(input.tool_choice, self.tool_choice),
            tools: match self.active_tools {
                Some(allowed) => allowed_tools(input.tools, allowed),
                None => input.tools,
            },
            additional_params: merged_params(input.additional_params, self.additional_params),
            documents: input.documents + self.extra_context,
            history: match self.history {
                Some(history) => if input.history.len() > 0 {
                    history.push(input.history.last())
                } else {
                    history
                },
                None => input.history,
            },
            ..input
        }
    }
}

fn merge_params(earlier: Option<serde_json::Value>, later: Option<serde_json::Value>) -> (r: Option<
    serde_json::Value,
>)
    ensures
        r == merged_params(earlier, later),
{
    match (earlier, later) {
        (Some(base), Some(over)) => {
            if base.is_object() && over.is_object() {
                Some(extend_object(base, over))
            } else {
                Some(over)
            }
        },
        (base, None) => base,
        (None, over) => over,
    }
}

fn holds_name(names: &Vec<String>, name: &String) -> (r: bool)
    ensures
        r == names.deep_view().contains(name@),
{
    let ghost views = names.deep_view();
    let mut i: usize = 0;
    while i < names.len()
        invariant
            i <= names@.len(),
            views == names.deep_view(),
            forall|k: int| 0 <= k < i ==> #[trigger] views[k] != name@,
        decreases names@.len() - i,
    {
        assert(views[i as int] == names@[i as int]@);
        if names[i] == *name {
            return true;
        }
        i = i + 1;
    }
    false
}

fn keep_names(names: Vec<String>, allowed: &Vec<String>) -> (r: Vec<String>)
    ensures
        r.deep_view() == allowed_names(names.deep_view(), allowed.deep_view()),
{
    let ghost views = names.deep_view();
    let mut r: Vec<String> = Vec::new();
    let mut i: usize = 0;
    assert(views.take(0) =~= Seq::empty());
    assert(r.deep_view() =~= Seq::empty());
    while i < names.len()
        invariant
            i <= names@.len(),
            views == names.deep_view(),
            r.deep_view() == allowed_names(views.take(i as int), allowed.deep_view()),
        decreases names@.len() - i,
    {
        let ghost before = r.deep_view();
        proof {
            assert(views.take(i + 1).drop_last() =~= views.take(i as int));
            assert(views.take(i + 1).last() == names@[i as int]@);
        }
        if holds_name(allowed, &names[i]) {
            r.push(names[i].clone());
            assert(r.deep_view() =~= before.push(names@[i as int]@));
        }
        i = i + 1;
    }
    assert(views.take(i as int) =~= views);
    r
}

fn keep_tools(tools: Vec<ToolDecision>, allowed: &Vec<String>) -> (r: Vec<ToolDecision>)
    ensures
        r.deep_view() == allowed_tools(tools.deep_view(), allowed.deep_view()),
{
    let ghost views = tools.deep_view();
    let mut r: Vec<ToolDecision> = Vec::new();
    let mut i: usize = 0;
    assert(views.take(0) =~= Seq::empty());
    assert(r.deep_view() =~= Seq::empty());
    while i < tools.len()
        invariant
            i <= tools@.len(),
            views == tools.deep_view(),
            r.deep_view() == allowed_tools(views.take(i as int), allowed.deep_view()),
        decreases tools@.len() - i,
    {
        let ghost before = r.deep_view();
        proof {
            assert(views.take(i + 1).drop_last() =~= views.take(i as int));
            assert(views.take(i + 1).last() == tools@[i as int]@);
        }
        if holds_name(allowed, &tools[i].name) {
            r.push(tools[i].clone());
            assert(r.deep_view() =~= before.push(tools@[i as int]@));
        }
        i = i + 1;
    }
    assert(views.take(i as int) =~= views);
    r
}

impl RequestPatch {
    /// Reduces this patch and a later one to one patch.
    pub fn reduce(self, later: RequestPatch) -> (r: Self)
        ensures
            r@ == self@.followed_by(later@),
    {
        let ghost first = self@;
        let ghost second = later@;
        let mut r = self;
        let later = later;
        if later.instructions.is_some() {
            r.instructions = later.instructions;
        }
        if later.temperature_bits.is_some() {
            r.temperature_bits = later.temperature_bits;
        }
        if later.max_tokens.is_some() {
            r.max_tokens = later.max_tokens;
        }
        if later.tool_choice.is_some() {
            r.tool_choice = later.tool_choice;
        }
        r.active_tools = match (r.active_tools, later.active_tools) {
            (Some(names), Some(allowed)) => Some(keep_names(names, &allowed)),
            (names, None) => names,
            (None, names) => names,
        };
        r.additional_params = merge_params(r.additional_params, later.additional_params);
        let mut more = later.extra_context;
        r.extra_context.append(&mut more);
        if later.history.is_some() {
            r.history = later.history;
        }
        assert(r.extra_context.deep_view() =~= first.extra_context + second.extra_context);
        assert(r@ =~= first.followed_by(second));
        r
    }

    /// Applies the patch to a model request.
    pub fn apply(self, input: ModelEffectInput) -> (r: ModelEffectInput)
        ensures
            r@ == self@.applied_to(input@),
    {
        let ghost patch = self@;
        let ghost given = input@;
        let mut r = input;
        if let Some(instructions) = self.instructions {
            r.instructions = instructions;
        }
        if self.temperature_bits.is_some() {
            r.temperature_bits = self.temperature_bits;
        }
        if self.max_tokens.is_some() {
            r.max_tokens = self.max_tokens;
        }
        if self.tool_choice.is_some() {
            r.tool_choice = self.tool_choice;
        }
        if let Some(allowed) = self.active_tools {
            r.tools = keep_tools(r.tools, &allowed);
        }
        r.additional_params = merge_params(r.additional_params, self.additional_params);
        let mut more = self.extra_context;
        r.documents.append(&mut more);
        assert(r.documents.deep_view() =~= given.documents + patch.extra_context);
        if let Some(history) = self.history {
            let mut entries = history;
            let ghost before = entries.deep_view();
            assert(given.history.len() == r.history@.len());
            if r.history.len() > 0 {
                let last = r.history[r.history.len() - 1].clone();
                assert(last@ == given.history.last());
                entries.push(last);
                assert(entries.deep_view() =~= before.push(given.history.last()));
            }
            r.history = entries;
        }
        assert(r@ =~= patch.applied_to(given));
        r
    }
}

/// A patch that changes nothing is neutral before any other.
pub proof fn law_empty_patch_is_neutral(patch: RequestPatchView, input: ModelEffectInputView)
    ensures
        RequestPatchView::nothing().followed_by(patch) == patch,
        RequestPatchView::nothing().applied_to(input) == input,
{
    assert(RequestPatchView::nothing().extra_context + patch.extra_context
        =~= patch.extra_context);
    assert(input.documents + RequestPatchView::nothing().extra_context =~= input.documents);
}

/// A tool that the reduced patches leave in a request is one that each of them allows.
pub proof fn law_allow_lists_are_intersected(
    first: RequestPatchView,
    second: RequestPatchView,
    name: Seq<char>,
)
    requires
        first.active_tools is Some,
        second.active_tools is Some,
    ensures
        first.followed_by(second).active_tools is Some,
        first.followed_by(second).active_tools->0.contains(name) <==> (
        first.active_tools->0.contains(name) && second.active_tools->0.contains(name)),
{
    lemma_allowed_names(first.active_tools->0, second.active_tools->0, name);
}

proof fn lemma_allowed_names(names: Seq<Seq<char>>, allowed: Seq<Seq<char>>, name: Seq<char>)
    ensures
        allowed_names(names, allowed).contains(name) <==> names.contains(name)
            && allowed.contains(name),
    decreases names.len(),
{
    if names.len() > 0 {
        let front = names.drop_last();
        lemma_allowed_names(front, allowed, name);
        let rest = allowed_names(front, allowed);
        assert(names.contains(name) <==> front.contains(name) || names.last() == name) by {
            if names.contains(name) && names.last() != name {
                let k = choose|k: int| 0 <= k < names.len() && names[k] == name;
                assert(front[k] == name);
            }
            if front.contains(name) {
                let k = choose|k: int| 0 <= k < front.len() && front[k] == name;
                assert(names[k] == name);
            }
            assert(names[names.len() - 1] == names.last());
        }
        let pushed = rest.push(names.last());
        assert(pushed.contains(name) <==> rest.contains(name) || names.last() == name) by {
            if pushed.contains(name) && names.last() != name {
                let k = choose|k: int| 0 <= k < pushed.len() && pushed[k] == name;
                assert(rest[k] == name);
            }
            if rest.contains(name) {
                let k = choose|k: int| 0 <= k < rest.len() && rest[k] == name;
                assert(pushed[k] == name);
            }
            assert(pushed[pushed.len() - 1] == names.last());
        }
    }
}

} // verus!
