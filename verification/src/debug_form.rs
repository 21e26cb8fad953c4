//! Debug forms of states, phases and outcomes.

use std::collections::BTreeMap;

use vstd::prelude::*;
use vstd::string::*;

use crate::capability::{RetrievedDocument, RetrievedDocumentView};
use crate::column::Entity;
use crate::effect::{
    CanonicalError, CanonicalErrorView, DiscoveredTool, DiscoveredToolView, DiscoveryEffectOutput,
    DiscoveryEffectOutputView, EffectOutput, EffectOutputView, ModelEffectOutput,
    ModelEffectOutputView, ModelToolCall, ModelToolCallView, OperationOutcome, OperationOutcomeView,
    OperationPhase, OperationPhaseView, RunOutput, RunOutputView, StoreEffectOutput,
    StoreEffectOutputView, ToolEffectFailure, ToolEffectFailureView, ToolEffectOutput,
    ToolEffectOutputView, ToolErrorKind, TranscriptEntry, TranscriptEntryView, Usage,
};
use crate::policy::{PolicyEvaluationPhase, PolicyEvaluationPhaseView};
use crate::run::{RunState, RunStateView};
use crate::text::{decimal, decimal_text};

verus! {

/// What the `Debug` form of a text is: quoted, with escapes.
pub uninterp spec fn str_debug(text: Seq<char>) -> Seq<char>;

/// `Debug` of [`str`] quotes a text and escapes what is not to be printed as it is.
#[verifier::external_body]
pub(crate) fn quote_text(text: &str) -> (r: String)
    ensures
        r@ == str_debug(text@),
{
    format!("{:?}", text)
}

/// What the `Debug` form of a JSON value is.
pub uninterp spec fn json_debug(value: serde_json::Value) -> Seq<char>;

/// `Debug` of [`serde_json::Value`] prints the kind of a value and what it holds.
#[verifier::external_body]
pub(crate) fn debug_json(value: &serde_json::Value) -> (r: String)
    ensures
        r@ == json_debug(*value),
{
    format!("{:?}", value)
}

/// What the `Debug` form of a map of texts is.
pub uninterp spec fn map_debug(map: Map<Seq<char>, Seq<char>>) -> Seq<char>;

/// `Debug` of [`BTreeMap`] prints the entries in the order of their keys.
#[verifier::external_body]
pub(crate) fn debug_map(map: &BTreeMap<String, String>) -> (r: String)
    ensures
        r@ == map_debug(map.deep_view()),
{
    format!("{:?}", map)
}

/// Texts with a comma between each two.
pub open spec fn listed(items: Seq<Seq<char>>) -> Seq<char>
    decreases items.len(),
{
    if items.len() == 0 {
        Seq::empty()
    } else if items.len() == 1 {
        items[0]
    } else {
        listed(items.drop_last()) + ", "@ + items.last()
    }
}

/// Debug form of a list.
pub open spec fn list_debug(items: Seq<Seq<char>>) -> Seq<char> {
    "["@ + listed(items) + "]"@
}

/// Debug form of a value with one unnamed field.
pub open spec fn tuple_debug(name: Seq<char>, value: Seq<char>) -> Seq<char> {
    name + "("@ + value + ")"@
}

/// Debug form of a value with named fields.
pub open spec fn struct_debug(name: Seq<char>, fields: Seq<(Seq<char>, Seq<char>)>) -> Seq<char> {
    name + " { "@ + listed(Seq::new(fields.len(), |i: int| fields[i].0 + ": "@ + fields[i].1))
        + " }"@
}

/// Debug form of a truth value.
pub open spec fn bool_debug(value: bool) -> Seq<char> {
    if value {
        "true"@
    } else {
        "false"@
    }
}

/// Debug form of an entity: its number, in its first generation, unless it stands for none.
pub open spec fn entity_debug(e: Entity) -> Seq<char> {
    if e == Entity(u64::MAX) {
        "PLACEHOLDER"@
    } else {
        decimal_text(e.0 as nat) + "v0"@
    }
}

/// The names and forms of fields.
pub open spec fn field_views(fields: Seq<(&str, String)>) -> Seq<(Seq<char>, Seq<char>)> {
    Seq::new(fields.len(), |i: int| (fields[i].0@, fields[i].1@))
}

fn list_items(items: &Vec<String>) -> (r: String)
    ensures
        r@ == listed(items.deep_view()),
{
    let ghost views = items.deep_view();
    let mut r = String::new();
    let mut i: usize = 0;
    assert(views.take(0) =~= Seq::empty());
    assert(r@ =~= Seq::empty());
    while i < items.len()
        invariant
            i <= items@.len(),
            views == items.deep_view(),
            r@ == listed(views.take(i as int)),
        decreases items@.len() - i,
    {
        proof {
            assert(views.take(i + 1).drop_last() =~= views.take(i as int));
            assert(views.take(i + 1).last() == items@[i as int]@);
        }
        if i > 0 {
            r.append(", ");
        }
        let ghost before = r@;
        r.append(items[i].as_str());
        assert(r@ =~= listed(views.take(i + 1)));
        i = i + 1;
    }
    assert(views.take(i as int) =~= views);
    r
}

fn list_form(items: &Vec<String>) -> (r: String)
    ensures
        r@ == list_debug(items.deep_view()),
{
    let mut r = "[".to_owned();
    let inner = list_items(items);
    r.append(inner.as_str());
    r.append("]");
    r
}

fn tuple_form(name: &str, value: &str) -> (r: String)
    ensures
        r@ == tuple_debug(name@, value@),
{
    let mut r = name.to_owned();
    r.append("(");
    r.append(value);
    r.append(")");
    r
}

fn struct_form(name: &str, fields: Vec<(&str, String)>) -> (r: String)
    ensures
        r@ == struct_debug(name@, field_views(fields@)),
{
    let ghost views = field_views(fields@);
    let mut items: Vec<String> = Vec::new();
    let mut i: usize = 0;
    while i < fields.len()
        invariant
            i <= fields@.len(),
            views == field_views(fields@),
            items@.len() == i,
            forall|k: int|
                0 <= k < i ==> (#[trigger] items@[k])@ == views[k].0 + ": "@ + views[k].1,
        decreases fields@.len() - i,
    {
        let mut item = fields[i].0.to_owned();
        item.append(": ");
        item.append(fields[i].1.as_str());
        items.push(item);
        i = i + 1;
    }
    assert(items.deep_view() =~= Seq::new(views.len(), |i: int| views[i].0 + ": "@ + views[i].1));
    let inner = list_items(&items);
    let mut r = name.to_owned();
    r.append(" { ");
    r.append(inner.as_str());
    r.append(" }");
    r
}

fn bool_form(value: bool) -> (r: String)
    ensures
        r@ == bool_debug(value),
{
    if value {
        "true".to_owned()
    } else {
        "false".to_owned()
    }
}

/// Debug form of an entity.
pub fn entity_form(e: Entity) -> (r: String)
    ensures
        r@ == entity_debug(e),
{
    if e.0 == u64::MAX {
        return "PLACEHOLDER".to_owned();
    }
    let mut r = decimal(e.0);
    r.append("v0");
    r
}

/// Debug form of a [`Usage`].
pub open spec fn usage_debug(v: Usage) -> Seq<char> {
    struct_debug(
        "Usage"@,
        seq![
            ("input_tokens"@, decimal_text(v.input_tokens as nat)),
            ("output_tokens"@, decimal_text(v.output_tokens as nat)),
        ],
    )
}

/// Debug form of a [`Usage`].
pub fn usage_form(v: &Usage) -> (r: String)
    ensures
        r@ == usage_debug(*v),
{
    let fields = vec![
        ("input_tokens", decimal(v.input_tokens)),
        ("output_tokens", decimal(v.output_tokens)),
    ];
    assert(field_views(fields@) =~= seq![
        ("input_tokens"@, decimal_text(v.input_tokens as nat)),
        ("output_tokens"@, decimal_text(v.output_tokens as nat)),
    ]);
    struct_form("Usage", fields)
}

/// Debug form of a [`RunOutput`].
pub open spec fn run_output_debug(v: RunOutputView) -> Seq<char> {
    struct_debug(
        "RunOutput"@,
        seq![
            ("text"@, str_debug(v.text)),
            ("usage"@, usage_debug(v.usage)),
        ],
    )
}

/// Debug form of a [`RunOutput`].
pub fn run_output_form(v: &RunOutput) -> (r: String)
    ensures
        r@ == run_output_debug(v@),
{
    let fields = vec![
        ("text", quote_text(v.text.as_str())),
        ("usage", usage_form(&v.usage)),
    ];
    assert(field_views(fields@) =~= seq![
        ("text"@, str_debug(v@.text)),
        ("usage"@, usage_debug(v@.usage)),
    ]);
    struct_form("RunOutput", fields)
}

/// Debug form of a [`CanonicalError`].
pub open spec fn canonical_error_debug(v: CanonicalErrorView) -> Seq<char> {
    match v {
        CanonicalErrorView::StaleEntity(value) => tuple_debug("StaleEntity"@, str_debug(value)),
        CanonicalErrorView::TenantMismatch => "TenantMismatch"@,
        CanonicalErrorView::RetiredCapability => "RetiredCapability"@,
        CanonicalErrorView::ExecutorDisconnected => "ExecutorDisconnected"@,
        CanonicalErrorView::Timeout => "Timeout"@,
        CanonicalErrorView::ExecutorPanicked(value) => tuple_debug("ExecutorPanicked"@, str_debug(value)),
        CanonicalErrorView::UnsupportedModelContent(value) => tuple_debug("UnsupportedModelContent"@, str_debug(value)),
        CanonicalErrorView::InvalidStructuredOutput(value) => tuple_debug("InvalidStructuredOutput"@, str_debug(value)),
        CanonicalErrorView::ModelCallBudget { limit } => struct_debug(
            "ModelCallBudget"@,
            seq![
                ("limit"@, decimal_text(limit as nat)),
            ],
        ),
        CanonicalErrorView::Provider { message, retryable } => struct_debug(
            "Provider"@,
            seq![
                ("message"@, str_debug(message)),
                ("retryable"@, bool_debug(retryable)),
            ],
        ),
        CanonicalErrorView::Tool { message, retryable } => struct_debug(
            "Tool"@,
            seq![
                ("message"@, str_debug(message)),
                ("retryable"@, bool_debug(retryable)),
            ],
        ),
        CanonicalErrorView::Store { message, retryable } => struct_debug(
            "Store"@,
            seq![
                ("message"@, str_debug(message)),
                ("retryable"@, bool_debug(retryable)),
            ],
        ),
        CanonicalErrorView::Discovery { message, retryable } => struct_debug(
            "Discovery"@,
            seq![
                ("message"@, str_debug(message)),
                ("retryable"@, bool_debug(retryable)),
            ],
        ),
        CanonicalErrorView::PolicyDenied { policy } => struct_debug(
            "PolicyDenied"@,
            seq![
                ("policy"@, str_debug(policy)),
            ],
        ),
        CanonicalErrorView::UnknownTool(value) => tuple_debug("UnknownTool"@, str_debug(value)),
        CanonicalErrorView::DuplicateToolCall(value) => tuple_debug("DuplicateToolCall"@, str_debug(value)),
        CanonicalErrorView::EffectKindMismatch => "EffectKindMismatch"@,
        CanonicalErrorView::InvalidDiscovery(value) => tuple_debug("InvalidDiscovery"@, str_debug(value)),
    }
}

/// Debug form of a [`CanonicalError`].
pub fn canonical_error_form(v: &CanonicalError) -> (r: String)
    ensures
        r@ == canonical_error_debug(v@),
{
    match v {
        CanonicalError::StaleEntity(value) => {
            let inner = quote_text(value.as_str());
            tuple_form("StaleEntity", inner.as_str())
        },
        CanonicalError::TenantMismatch => "TenantMismatch".to_owned(),
        CanonicalError::RetiredCapability => "RetiredCapability".to_owned(),
        CanonicalError::ExecutorDisconnected => "ExecutorDisconnected".to_owned(),
        CanonicalError::Timeout => "Timeout".to_owned(),
        CanonicalError::ExecutorPanicked(value) => {
            let inner = quote_text(value.as_str());
            tuple_form("ExecutorPanicked", inner.as_str())
        },
        CanonicalError::UnsupportedModelContent(value) => {
            let inner = quote_text(value.as_str());
            tuple_form("UnsupportedModelContent", inner.as_str())
        },
        CanonicalError::InvalidStructuredOutput(value) => {
            let inner = quote_text(value.as_str());
            tuple_form("InvalidStructuredOutput", inner.as_str())
        },
        CanonicalError::ModelCallBudget { limit } => {
            let fields = vec![
                ("limit", decimal(*limit as u64)),
            ];
            assert(field_views(fields@) =~= seq![
                ("limit"@, decimal_text(*limit as nat)),
            ]);
            struct_form("ModelCallBudget", fields)
        },
        CanonicalError::Provider { message, retryable } => {
            let fields = vec![
                ("message", quote_text(message.as_str())),
                ("retryable", bool_form(*retryable)),
            ];
            assert(field_views(fields@) =~= seq![
                ("message"@, str_debug(message@)),
                ("retryable"@, bool_debug(*retryable)),
            ]);
            struct_form("Provider", fields)
        },
        CanonicalError::Tool { message, retryable } => {
            let fields = vec![
                ("message", quote_text(message.as_str())),
                ("retryable", bool_form(*retryable)),
            ];
            assert(field_views(fields@) =~= seq![
                ("message"@, str_debug(message@)),
                ("retryable"@, bool_debug(*retryable)),
            ]);
            struct_form("Tool", fields)
        },
        CanonicalError::Store { message, retryable } => {
            let fields = vec![
                ("message", quote_text(message.as_str())),
                ("retryable", bool_form(*retryable)),
            ];
            assert(field_views(fields@) =~= seq![
                ("message"@, str_debug(message@)),
                ("retryable"@, bool_debug(*retryable)),
            ]);
            struct_form("Store", fields)
        },
        CanonicalError::Discovery { message, retryable } => {
            let fields = vec![
                ("message", quote_text(message.as_str())),
                ("retryable", bool_form(*retryable)),
            ];
            assert(field_views(fields@) =~= seq![
                ("message"@, str_debug(message@)),
                ("retryable"@, bool_debug(*retryable)),
            ]);
            struct_form("Discovery", fields)
        },
        CanonicalError::PolicyDenied { policy } => {
            let fields = vec![
                ("policy", quote_text(policy.as_str())),
            ];
            assert(field_views(fields@) =~= seq![
                ("policy"@, str_debug(policy@)),
            ]);
            struct_form("PolicyDenied", fields)
        },
        CanonicalError::UnknownTool(value) => {
            let inner = quote_text(value.as_str());
            tuple_form("UnknownTool", inner.as_str())
        },
        CanonicalError::DuplicateToolCall(value) => {
            let inner = quote_text(value.as_str());
            tuple_form("DuplicateToolCall", inner.as_str())
        },
        CanonicalError::EffectKindMismatch => "EffectKindMismatch".to_owned(),
        CanonicalError::InvalidDiscovery(value) => {
            let inner = quote_text(value.as_str());
            tuple_form("InvalidDiscovery", inner.as_str())
        },
    }
}

/// Debug form of a [`ModelToolCall`].
pub open spec fn model_tool_call_debug(v: ModelToolCallView) -> Seq<char> {
    struct_debug(
        "ModelToolCall"@,
        seq![
            ("id"@, str_debug(v.id)),
            ("provider_result_id"@, str_debug(v.provider_result_id)),
            ("provider_call_id"@, optional_text_debug(v.provider_call_id)),
            ("name"@, str_debug(v.name)),
            ("arguments"@, json_debug(v.arguments)),
        ],
    )
}

/// Debug form of a [`ModelToolCall`].
pub fn model_tool_call_form(v: &ModelToolCall) -> (r: String)
    ensures
        r@ == model_tool_call_debug(v@),
{
    let fields = vec![
        ("id", quote_text(v.id.as_str())),
        ("provider_result_id", quote_text(v.provider_result_id.as_str())),
        ("provider_call_id", optional_text_form(&v.provider_call_id)),
        ("name", quote_text(v.name.as_str())),
        ("arguments", debug_json(&v.arguments)),
    ];
    assert(field_views(fields@) =~= seq![
        ("id"@, str_debug(v@.id)),
        ("provider_result_id"@, str_debug(v@.provider_result_id)),
        ("provider_call_id"@, optional_text_debug(v@.provider_call_id)),
        ("name"@, str_debug(v@.name)),
        ("arguments"@, json_debug(v@.arguments)),
    ]);
    struct_form("ModelToolCall", fields)
}

/// Debug form of a [`ModelEffectOutput`].
pub open spec fn model_effect_output_debug(v: ModelEffectOutputView) -> Seq<char> {
    struct_debug(
        "ModelEffectOutput"@,
        seq![
            ("assistant_message"@, optional_json_debug(v.assistant_message)),
            ("text"@, str_debug(v.text)),
            ("usage"@, usage_debug(v.usage)),
            ("tool_calls"@, model_tool_calls_debug(v.tool_calls)),
        ],
    )
}

/// Debug form of a [`ModelEffectOutput`].
pub fn model_effect_output_form(v: &ModelEffectOutput) -> (r: String)
    ensures
        r@ == model_effect_output_debug(v@),
{
    let fields = vec![
        ("assistant_message", optional_json_form(&v.assistant_message)),
        ("text", quote_text(v.text.as_str())),
        ("usage", usage_form(&v.usage)),
        ("tool_calls", model_tool_calls_form(&v.tool_calls)),
    ];
    assert(field_views(fields@) =~= seq![
        ("assistant_message"@, optional_json_debug(v@.assistant_message)),
        ("text"@, str_debug(v@.text)),
        ("usage"@, usage_debug(v@.usage)),
        ("tool_calls"@, model_tool_calls_debug(v@.tool_calls)),
    ]);
    struct_form("ModelEffectOutput", fields)
}

/// Debug form of a [`ToolErrorKind`].
pub open spec fn tool_error_kind_debug(v: ToolErrorKind) -> Seq<char> {
    match v {
        ToolErrorKind::InvalidArguments => "InvalidArguments"@,
        ToolErrorKind::Other => "Other"@,
    }
}

/// Debug form of a [`ToolErrorKind`].
pub fn tool_error_kind_form(v: &ToolErrorKind) -> (r: String)
    ensures
        r@ == tool_error_kind_debug(*v),
{
    match v {
        ToolErrorKind::InvalidArguments => "InvalidArguments".to_owned(),
        ToolErrorKind::Other => "Other".to_owned(),
    }
}

/// Debug form of a [`ToolEffectFailure`].
pub open spec fn tool_effect_failure_debug(v: ToolEffectFailureView) -> Seq<char> {
    struct_debug(
        "ToolEffectFailure"@,
        seq![
            ("message"@, str_debug(v.message)),
            ("retryable"@, optional_bool_debug(v.retryable)),
            ("kind"@, tool_error_kind_debug(v.kind)),
            ("refusal"@, bool_debug(v.refusal)),
        ],
    )
}

/// Debug form of a [`ToolEffectFailure`].
pub fn tool_effect_failure_form(v: &ToolEffectFailure) -> (r: String)
    ensures
        r@ == tool_effect_failure_debug(v@),
{
    let fields = vec![
        ("message", quote_text(v.message.as_str())),
        ("retryable", optional_bool_form(&v.retryable)),
        ("kind", tool_error_kind_form(&v.kind)),
        ("refusal", bool_form(v.refusal)),
    ];
    assert(field_views(fields@) =~= seq![
        ("message"@, str_debug(v@.message)),
        ("retryable"@, optional_bool_debug(v@.retryable)),
        ("kind"@, tool_error_kind_debug(v@.kind)),
        ("refusal"@, bool_debug(v@.refusal)),
    ]);
    struct_form("ToolEffectFailure", fields)
}

/// Debug form of a [`ToolEffectOutput`].
pub open spec fn tool_effect_output_debug(v: ToolEffectOutputView) -> Seq<char> {
    struct_debug(
        "ToolEffectOutput"@,
        seq![
            ("call_id"@, str_debug(v.call_id)),
            ("provider_result_id"@, str_debug(v.provider_result_id)),
            ("provider_call_id"@, optional_text_debug(v.provider_call_id)),
            ("name"@, str_debug(v.name)),
            ("raw"@, json_debug(v.raw)),
            ("presentation"@, str_debug(v.presentation)),
            ("failure"@, optional_tool_effect_failure_debug(v.failure)),
        ],
    )
}

/// Debug form of a [`ToolEffectOutput`].
pub fn tool_effect_output_form(v: &ToolEffectOutput) -> (r: String)
    ensures
        r@ == tool_effect_output_debug(v@),
{
    let fields = vec![
        ("call_id", quote_text(v.call_id.as_str())),
        ("provider_result_id", quote_text(v.provider_result_id.as_str())),
        ("provider_call_id", optional_text_form(&v.provider_call_id)),
        ("name", quote_text(v.name.as_str())),
        ("raw", debug_json(&v.raw)),
        ("presentation", quote_text(v.presentation.as_str())),
        ("failure", optional_tool_effect_failure_form(&v.failure)),
    ];
    assert(field_views(fields@) =~= seq![
        ("call_id"@, str_debug(v@.call_id)),
        ("provider_result_id"@, str_debug(v@.provider_result_id)),
        ("provider_call_id"@, optional_text_debug(v@.provider_call_id)),
        ("name"@, str_debug(v@.name)),
        ("raw"@, json_debug(v@.raw)),
        ("presentation"@, str_debug(v@.presentation)),
        ("failure"@, optional_tool_effect_failure_debug(v@.failure)),
    ]);
    struct_form("ToolEffectOutput", fields)
}

/// Debug form of a [`DiscoveredTool`].
pub open spec fn discovered_tool_debug(v: DiscoveredToolView) -> Seq<char> {
    struct_debug(
        "DiscoveredTool"@,
        seq![
            ("key"@, str_debug(v.key)),
            ("name"@, str_debug(v.name)),
            ("description"@, str_debug(v.description)),
            ("parameters"@, json_debug(v.parameters)),
            ("order"@, decimal_text(v.order as nat)),
            ("revision"@, decimal_text(v.revision as nat)),
        ],
    )
}

/// Debug form of a [`DiscoveredTool`].
pub fn discovered_tool_form(v: &DiscoveredTool) -> (r: String)
    ensures
        r@ == discovered_tool_debug(v@),
{
    let fields = vec![
        ("key", quote_text(v.key.as_str())),
        ("name", quote_text(v.name.as_str())),
        ("description", quote_text(v.description.as_str())),
        ("parameters", debug_json(&v.parameters)),
        ("order", decimal(v.order as u64)),
        ("revision", decimal(v.revision)),
    ];
    assert(field_views(fields@) =~= seq![
        ("key"@, str_debug(v@.key)),
        ("name"@, str_debug(v@.name)),
        ("description"@, str_debug(v@.description)),
        ("parameters"@, json_debug(v@.parameters)),
        ("order"@, decimal_text(v@.order as nat)),
        ("revision"@, decimal_text(v@.revision as nat)),
    ]);
    struct_form("DiscoveredTool", fields)
}

/// Debug form of a [`DiscoveryEffectOutput`].
pub open spec fn discovery_effect_output_debug(v: DiscoveryEffectOutputView) -> Seq<char> {
    struct_debug(
        "DiscoveryEffectOutput"@,
        seq![
            ("tools"@, discovered_tools_debug(v.tools)),
        ],
    )
}

/// Debug form of a [`DiscoveryEffectOutput`].
pub fn discovery_effect_output_form(v: &DiscoveryEffectOutput) -> (r: String)
    ensures
        r@ == discovery_effect_output_debug(v@),
{
    let fields = vec![
        ("tools", discovered_tools_form(&v.tools)),
    ];
    assert(field_views(fields@) =~= seq![
        ("tools"@, discovered_tools_debug(v@.tools)),
    ]);
    struct_form("DiscoveryEffectOutput", fields)
}

/// Debug form of a [`TranscriptEntry`].
pub open spec fn transcript_entry_debug(v: TranscriptEntryView) -> Seq<char> {
    match v {
        TranscriptEntryView::User(value) => tuple_debug("User"@, str_debug(value)),
        TranscriptEntryView::UserMessage(value) => tuple_debug("UserMessage"@, json_debug(value)),
        TranscriptEntryView::Message(value) => tuple_debug("Message"@, json_debug(value)),
        TranscriptEntryView::Assistant(value) => tuple_debug("Assistant"@, str_debug(value)),
        TranscriptEntryView::AssistantMessage(value) => tuple_debug("AssistantMessage"@, json_debug(value)),
        TranscriptEntryView::AssistantToolCall { call_id, name, arguments } => struct_debug(
            "AssistantToolCall"@,
            seq![
                ("call_id"@, str_debug(call_id)),
                ("name"@, str_debug(name)),
                ("arguments"@, json_debug(arguments)),
            ],
        ),
        TranscriptEntryView::ToolResult { call_id, provider_result_id, provider_call_id, name, raw, content } => struct_debug(
            "ToolResult"@,
            seq![
                ("call_id"@, str_debug(call_id)),
                ("provider_result_id"@, str_debug(provider_result_id)),
                ("provider_call_id"@, optional_text_debug(provider_call_id)),
                ("name"@, str_debug(name)),
                ("raw"@, json_debug(raw)),
                ("content"@, str_debug(content)),
            ],
        ),
    }
}

/// Debug form of a [`TranscriptEntry`].
pub fn transcript_entry_form(v: &TranscriptEntry) -> (r: String)
    ensures
        r@ == transcript_entry_debug(v@),
{
    match v {
        TranscriptEntry::User(value) => {
            let inner = quote_text(value.as_str());
            tuple_form("User", inner.as_str())
        },
        TranscriptEntry::UserMessage(value) => {
            let inner = debug_json(value);
            tuple_form("UserMessage", inner.as_str())
        },
        TranscriptEntry::Message(value) => {
            let inner = debug_json(value);
            tuple_form("Message", inner.as_str())
        },
        TranscriptEntry::Assistant(value) => {
            let inner = quote_text(value.as_str());
            tuple_form("Assistant", inner.as_str())
        },
        TranscriptEntry::AssistantMessage(value) => {
            let inner = debug_json(value);
            tuple_form("AssistantMessage", inner.as_str())
        },
        TranscriptEntry::AssistantToolCall { call_id, name, arguments } => {
            let fields = vec![
                ("call_id", quote_text(call_id.as_str())),
                ("name", quote_text(name.as_str())),
                ("arguments", debug_json(arguments)),
            ];
            assert(field_views(fields@) =~= seq![
                ("call_id"@, str_debug(call_id@)),
                ("name"@, str_debug(name@)),
                ("arguments"@, json_debug(*arguments)),
            ]);
            struct_form("AssistantToolCall", fields)
        },
        TranscriptEntry::ToolResult { call_id, provider_result_id, provider_call_id, name, raw, content } => {
            let fields = vec![
                ("call_id", quote_text(call_id.as_str())),
                ("provider_result_id", quote_text(provider_result_id.as_str())),
                ("provider_call_id", optional_text_form(provider_call_id)),
                ("name", quote_text(name.as_str())),
                ("raw", debug_json(raw)),
                ("content", quote_text(content.as_str())),
            ];
            assert(field_views(fields@) =~= seq![
                ("call_id"@, str_debug(call_id@)),
                ("provider_result_id"@, str_debug(provider_result_id@)),
                ("provider_call_id"@, optional_text_debug(provider_call_id.deep_view())),
                ("name"@, str_debug(name@)),
                ("raw"@, json_debug(*raw)),
                ("content"@, str_debug(content@)),
            ]);
            struct_form("ToolResult", fields)
        },
    }
}

/// Debug form of a [`RetrievedDocument`].
pub open spec fn retrieved_document_debug(v: RetrievedDocumentView) -> Seq<char> {
    struct_debug(
        "RetrievedDocument"@,
        seq![
            ("id"@, str_debug(v.id)),
            ("text"@, str_debug(v.text)),
            ("metadata"@, map_debug(v.metadata)),
        ],
    )
}

/// Debug form of a [`RetrievedDocument`].
pub fn retrieved_document_form(v: &RetrievedDocument) -> (r: String)
    ensures
        r@ == retrieved_document_debug(v@),
{
    let fields = vec![
        ("id", quote_text(v.id.as_str())),
        ("text", quote_text(v.text.as_str())),
        ("metadata", debug_map(&v.metadata)),
    ];
    assert(field_views(fields@) =~= seq![
        ("id"@, str_debug(v@.id)),
        ("text"@, str_debug(v@.text)),
        ("metadata"@, map_debug(v@.metadata)),
    ]);
    struct_form("RetrievedDocument", fields)
}

/// Debug form of a [`StoreEffectOutput`].
pub open spec fn store_effect_output_debug(v: StoreEffectOutputView) -> Seq<char> {
    match v {
        StoreEffectOutputView::LoadedConversation(value) => tuple_debug("LoadedConversation"@, transcript_entrys_debug(value)),
        StoreEffectOutputView::Persisted => "Persisted"@,
        StoreEffectOutputView::Retrieved(value) => tuple_debug("Retrieved"@, retrieved_documents_debug(value)),
    }
}

/// Debug form of a [`StoreEffectOutput`].
pub fn store_effect_output_form(v: &StoreEffectOutput) -> (r: String)
    ensures
        r@ == store_effect_output_debug(v@),
{
    match v {
        StoreEffectOutput::LoadedConversation(value) => {
            let inner = transcript_entrys_form(value);
            tuple_form("LoadedConversation", inner.as_str())
        },
        StoreEffectOutput::Persisted => "Persisted".to_owned(),
        StoreEffectOutput::Retrieved(value) => {
            let inner = retrieved_documents_form(value);
            tuple_form("Retrieved", inner.as_str())
        },
    }
}

/// Debug form of a [`EffectOutput`].
pub open spec fn effect_output_debug(v: EffectOutputView) -> Seq<char> {
    match v {
        EffectOutputView::Model(value) => tuple_debug("Model"@, model_effect_output_debug(value)),
        EffectOutputView::Tool(value) => tuple_debug("Tool"@, tool_effect_output_debug(value)),
        EffectOutputView::Discovery(value) => tuple_debug("Discovery"@, discovery_effect_output_debug(value)),
        EffectOutputView::Store(value) => tuple_debug("Store"@, store_effect_output_debug(value)),
    }
}

/// Debug form of a [`EffectOutput`].
pub fn effect_output_form(v: &EffectOutput) -> (r: String)
    ensures
        r@ == effect_output_debug(v@),
{
    match v {
        EffectOutput::Model(value) => {
            let inner = model_effect_output_form(value);
            tuple_form("Model", inner.as_str())
        },
        EffectOutput::Tool(value) => {
            let inner = tool_effect_output_form(value);
            tuple_form("Tool", inner.as_str())
        },
        EffectOutput::Discovery(value) => {
            let inner = discovery_effect_output_form(value);
            tuple_form("Discovery", inner.as_str())
        },
        EffectOutput::Store(value) => {
            let inner = store_effect_output_form(value);
            tuple_form("Store", inner.as_str())
        },
    }
}

/// Debug form of a [`OperationOutcome`].
pub open spec fn operation_outcome_debug(v: OperationOutcomeView) -> Seq<char> {
    match v {
        OperationOutcomeView::Success(value) => tuple_debug("Success"@, effect_output_debug(value)),
        OperationOutcomeView::Failure(value) => tuple_debug("Failure"@, canonical_error_debug(value)),
    }
}

/// Debug form of a [`OperationOutcome`].
pub fn operation_outcome_form(v: &OperationOutcome) -> (r: String)
    ensures
        r@ == operation_outcome_debug(v@),
{
    match v {
        OperationOutcome::Success(value) => {
            let inner = effect_output_form(value);
            tuple_form("Success", inner.as_str())
        },
        OperationOutcome::Failure(value) => {
            let inner = canonical_error_form(value);
            tuple_form("Failure", inner.as_str())
        },
    }
}

/// Debug form of a [`OperationPhase`].
pub open spec fn operation_phase_debug(v: OperationPhaseView) -> Seq<char> {
    match v {
        OperationPhaseView::Prepared => "Prepared"@,
        OperationPhaseView::InFlight => "InFlight"@,
        OperationPhaseView::Settled(value) => tuple_debug("Settled"@, operation_outcome_debug(value)),
        OperationPhaseView::Cancelled => "Cancelled"@,
        OperationPhaseView::Superseded => "Superseded"@,
        OperationPhaseView::ExtensionSettled => "ExtensionSettled"@,
    }
}

/// Debug form of a [`OperationPhase`].
pub fn operation_phase_form(v: &OperationPhase) -> (r: String)
    ensures
        r@ == operation_phase_debug(v@),
{
    match v {
        OperationPhase::Prepared => "Prepared".to_owned(),
        OperationPhase::InFlight => "InFlight".to_owned(),
        OperationPhase::Settled(value) => {
            let inner = operation_outcome_form(value);
            tuple_form("Settled", inner.as_str())
        },
        OperationPhase::Cancelled => "Cancelled".to_owned(),
        OperationPhase::Superseded => "Superseded".to_owned(),
        OperationPhase::ExtensionSettled => "ExtensionSettled".to_owned(),
    }
}

/// Debug form of a [`RunState`].
pub open spec fn run_state_debug(v: RunStateView) -> Seq<char> {
    match v {
        RunStateView::Queued => "Queued"@,
        RunStateView::WaitingModel { operation } => struct_debug(
            "WaitingModel"@,
            seq![
                ("operation"@, entity_debug(operation)),
            ],
        ),
        RunStateView::WaitingTools { batch } => struct_debug(
            "WaitingTools"@,
            seq![
                ("batch"@, entity_debug(batch)),
            ],
        ),
        RunStateView::WaitingStore { operation } => struct_debug(
            "WaitingStore"@,
            seq![
                ("operation"@, entity_debug(operation)),
            ],
        ),
        RunStateView::Completed(value) => tuple_debug("Completed"@, run_output_debug(value)),
        RunStateView::Failed(value) => tuple_debug("Failed"@, canonical_error_debug(value)),
        RunStateView::Cancelled => "Cancelled"@,
    }
}

/// Debug form of a [`RunState`].
pub fn run_state_form(v: &RunState) -> (r: String)
    ensures
        r@ == run_state_debug(v@),
{
    match v {
        RunState::Queued => "Queued".to_owned(),
        RunState::WaitingModel { operation } => {
            let fields = vec![
                ("operation", entity_form(*operation)),
            ];
            assert(field_views(fields@) =~= seq![
                ("operation"@, entity_debug(*operation)),
            ]);
            struct_form("WaitingModel", fields)
        },
        RunState::WaitingTools { batch } => {
            let fields = vec![
                ("batch", entity_form(*batch)),
            ];
            assert(field_views(fields@) =~= seq![
                ("batch"@, entity_debug(*batch)),
            ]);
            struct_form("WaitingTools", fields)
        },
        RunState::WaitingStore { operation } => {
            let fields = vec![
                ("operation", entity_form(*operation)),
            ];
            assert(field_views(fields@) =~= seq![
                ("operation"@, entity_debug(*operation)),
            ]);
            struct_form("WaitingStore", fields)
        },
        RunState::Completed(value) => {
            let inner = run_output_form(value);
            tuple_form("Completed", inner.as_str())
        },
        RunState::Failed(value) => {
            let inner = canonical_error_form(value);
            tuple_form("Failed", inner.as_str())
        },
        RunState::Cancelled => "Cancelled".to_owned(),
    }
}

/// Debug form of a [`PolicyEvaluationPhase`].
pub open spec fn policy_evaluation_phase_debug(v: PolicyEvaluationPhaseView) -> Seq<char> {
    match v {
        PolicyEvaluationPhaseView::Evaluating => "Evaluating"@,
        PolicyEvaluationPhaseView::WaitingApproval { operation, policy } => struct_debug(
            "WaitingApproval"@,
            seq![
                ("operation"@, entity_debug(operation)),
                ("policy"@, tuple_debug("StableId"@, str_debug(policy))),
            ],
        ),
        PolicyEvaluationPhaseView::Accepted => "Accepted"@,
        PolicyEvaluationPhaseView::Skipped(value) => tuple_debug("Skipped"@, str_debug(value)),
        PolicyEvaluationPhaseView::Resolved => "Resolved"@,
        PolicyEvaluationPhaseView::Failed => "Failed"@,
        PolicyEvaluationPhaseView::Published => "Published"@,
        PolicyEvaluationPhaseView::Rejected { policy, reason } => struct_debug(
            "Rejected"@,
            seq![
                ("policy"@, tuple_debug("StableId"@, str_debug(policy))),
                ("reason"@, str_debug(reason)),
            ],
        ),
    }
}

/// Debug form of a [`PolicyEvaluationPhase`].
pub fn policy_evaluation_phase_form(v: &PolicyEvaluationPhase) -> (r: String)
    ensures
        r@ == policy_evaluation_phase_debug(v@),
{
    match v {
        PolicyEvaluationPhase::Evaluating => "Evaluating".to_owned(),
        PolicyEvaluationPhase::WaitingApproval { operation, policy } => {
            let fields = vec![
                ("operation", entity_form(*operation)),
                ("policy", tuple_form("StableId", quote_text(policy.as_str()).as_str())),
            ];
            assert(field_views(fields@) =~= seq![
                ("operation"@, entity_debug(*operation)),
                ("policy"@, tuple_debug("StableId"@, str_debug(policy@))),
            ]);
            struct_form("WaitingApproval", fields)
        },
        PolicyEvaluationPhase::Accepted => "Accepted".to_owned(),
        PolicyEvaluationPhase::Skipped(value) => {
            let inner = quote_text(value.as_str());
            tuple_form("Skipped", inner.as_str())
        },
        PolicyEvaluationPhase::Resolved => "Resolved".to_owned(),
        PolicyEvaluationPhase::Failed => "Failed".to_owned(),
        PolicyEvaluationPhase::Published => "Published".to_owned(),
        PolicyEvaluationPhase::Rejected { policy, reason } => {
            let fields = vec![
                ("policy", tuple_form("StableId", quote_text(policy.as_str()).as_str())),
                ("reason", quote_text(reason.as_str())),
            ];
            assert(field_views(fields@) =~= seq![
                ("policy"@, tuple_debug("StableId"@, str_debug(policy@))),
                ("reason"@, str_debug(reason@)),
            ]);
            struct_form("Rejected", fields)
        },
    }
}

/// Debug form of an optional value.
pub open spec fn optional_text_debug(v: Option<Seq<char>>) -> Seq<char> {
    match v {
        Some(value) => tuple_debug("Some"@, str_debug(value)),
        None => "None"@,
    }
}

fn optional_text_form(v: &Option<String>) -> (r: String)
    ensures
        r@ == optional_text_debug(v.deep_view()),
{
    match v {
        Some(value) => {
            let inner = quote_text(value.as_str());
            tuple_form("Some", inner.as_str())
        },
        None => "None".to_owned(),
    }
}

/// Debug form of an optional value.
pub open spec fn optional_tool_effect_failure_debug(v: Option<ToolEffectFailureView>) -> Seq<char> {
    match v {
        Some(value) => tuple_debug("Some"@, tool_effect_failure_debug(value)),
        None => "None"@,
    }
}

fn optional_tool_effect_failure_form(v: &Option<ToolEffectFailure>) -> (r: String)
    ensures
        r@ == optional_tool_effect_failure_debug(v.deep_view()),
{
    match v {
        Some(value) => {
            let inner = tool_effect_failure_form(value);
            tuple_form("Some", inner.as_str())
        },
        None => "None".to_owned(),
    }
}

/// Debug form of an optional value.
pub open spec fn optional_bool_debug(v: Option<bool>) -> Seq<char> {
    match v {
        Some(value) => tuple_debug("Some"@, bool_debug(value)),
        None => "None"@,
    }
}

fn optional_bool_form(v: &Option<bool>) -> (r: String)
    ensures
        r@ == optional_bool_debug(*v),
{
    match v {
        Some(value) => {
            let inner = bool_form(*value);
            tuple_form("Some", inner.as_str())
        },
        None => "None".to_owned(),
    }
}

/// Debug form of an optional value.
pub open spec fn optional_json_debug(v: Option<serde_json::Value>) -> Seq<char> {
    match v {
        Some(value) => tuple_debug("Some"@, json_debug(value)),
        None => "None"@,
    }
}

fn optional_json_form(v: &Option<serde_json::Value>) -> (r: String)
    ensures
        r@ == optional_json_debug(*v),
{
    match v {
        Some(value) => {
            let inner = debug_json(value);
            tuple_form("Some", inner.as_str())
        },
        None => "None".to_owned(),
    }
}

/// Debug form of a list.
pub open spec fn discovered_tools_debug(v: Seq<DiscoveredToolView>) -> Seq<char> {
    list_debug(Seq::new(v.len(), |i: int| discovered_tool_debug(v[i])))
}

/// Debug form of a list.
pub open spec fn model_tool_calls_debug(v: Seq<ModelToolCallView>) -> Seq<char> {
    list_debug(Seq::new(v.len(), |i: int| model_tool_call_debug(v[i])))
}

/// Debug form of a list.
pub open spec fn retrieved_documents_debug(v: Seq<RetrievedDocumentView>) -> Seq<char> {
    list_debug(Seq::new(v.len(), |i: int| retrieved_document_debug(v[i])))
}

/// Debug form of a list.
pub open spec fn transcript_entrys_debug(v: Seq<TranscriptEntryView>) -> Seq<char> {
    list_debug(Seq::new(v.len(), |i: int| transcript_entry_debug(v[i])))
}

fn discovered_tools_form(items: &Vec<DiscoveredTool>) -> (r: String)
    ensures
        r@ == discovered_tools_debug(items.deep_view()),
{
    let ghost views = items.deep_view();
    let mut texts: Vec<String> = Vec::new();
    let mut i: usize = 0;
    while i < items.len()
        invariant
            i <= items@.len(),
            views == items.deep_view(),
            texts@.len() == i,
            forall|k: int| 0 <= k < i ==> (#[trigger] texts@[k])@ == discovered_tool_debug(views[k]),
        decreases items@.len() - i,
    {
        assert(views[i as int] == items@[i as int]@);
        texts.push(discovered_tool_form(&items[i]));
        i = i + 1;
    }
    assert(texts.deep_view() =~= Seq::new(views.len(), |i: int| discovered_tool_debug(views[i])));
    list_form(&texts)
}

fn model_tool_calls_form(items: &Vec<ModelToolCall>) -> (r: String)
    ensures
        r@ == model_tool_calls_debug(items.deep_view()),
{
    let ghost views = items.deep_view();
    let mut texts: Vec<String> = Vec::new();
    let mut i: usize = 0;
    while i < items.len()
        invariant
            i <= items@.len(),
            views == items.deep_view(),
            texts@.len() == i,
            forall|k: int| 0 <= k < i ==> (#[trigger] texts@[k])@ == model_tool_call_debug(views[k]),
        decreases items@.len() - i,
    {
        assert(views[i as int] == items@[i as int]@);
        texts.push(model_tool_call_form(&items[i]));
        i = i + 1;
    }
    assert(texts.deep_view() =~= Seq::new(views.len(), |i: int| model_tool_call_debug(views[i])));
    list_form(&texts)
}

fn retrieved_documents_form(items: &Vec<RetrievedDocument>) -> (r: String)
    ensures
        r@ == retrieved_documents_debug(items.deep_view()),
{
    let ghost views = items.deep_view();
    let mut texts: Vec<String> = Vec::new();
    let mut i: usize = 0;
    while i < items.len()
        invariant
            i <= items@.len(),
            views == items.deep_view(),
            texts@.len() == i,
            forall|k: int| 0 <= k < i ==> (#[trigger] texts@[k])@ == retrieved_document_debug(views[k]),
        decreases items@.len() - i,
    {
        assert(views[i as int] == items@[i as int]@);
        texts.push(retrieved_document_form(&items[i]));
        i = i + 1;
    }
    assert(texts.deep_view() =~= Seq::new(views.len(), |i: int| retrieved_document_debug(views[i])));
    list_form(&texts)
}

fn transcript_entrys_form(items: &Vec<TranscriptEntry>) -> (r: String)
    ensures
        r@ == transcript_entrys_debug(items.deep_view()),
{
    let ghost views = items.deep_view();
    let mut texts: Vec<String> = Vec::new();
    let mut i: usize = 0;
    while i < items.len()
        invariant
            i <= items@.len(),
            views == items.deep_view(),
            texts@.len() == i,
            forall|k: int| 0 <= k < i ==> (#[trigger] texts@[k])@ == transcript_entry_debug(views[k]),
        decreases items@.len() - i,
    {
        assert(views[i as int] == items@[i as int]@);
        texts.push(transcript_entry_form(&items[i]));
        i = i + 1;
    }
    assert(texts.deep_view() =~= Seq::new(views.len(), |i: int| transcript_entry_debug(views[i])));
    list_form(&texts)
}

} // verus!
