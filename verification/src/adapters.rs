//! Checks around executors, and canonical results of what they give back.

use vstd::prelude::*;
use vstd::string::*;

use crate::capability::{RetrievedDocument, RetrievedDocumentView};
use crate::column::Entity;
use crate::effect::{
    CanonicalError, CanonicalErrorView, DiscoveryEffectInput, DiscoveryEffectInputView,
    DiscoveryEffectOutput, EffectDelta, EffectDeltaView, EffectInput, EffectInputView,
    EffectRequest, ModelDecision, ModelEffectInput, ModelEffectInputView, StoreEffectInput,
    StoreEffectInputView, StoreEffectOutput, ToolEffectFailure, ToolEffectFailureView,
    ToolEffectInput, ToolEffectInputView, ToolEffectOutput, ToolEffectOutputView,
};
use crate::executor::{
    CompletionModelAdapter, CompletionModelAdapterView, DiscoveryAdapter, DiscoveryAdapterView,
    EncodedContent, EncodedContentView, ModelResponse, ModelResponseView, StoreAdapter,
    StoreAdapterView, ToolAdapter, ToolAdapterView, ToolExecutionError, ToolExecutionErrorView,
    ToolOutcome, ToolOutcomeView,
};
use crate::identity::StableId;
use crate::json::{json_pretty, json_text, print_json, print_pretty};
use crate::message::{NormalizedOutput, NormalizedOutputView};
use crate::normalize::{normalize_model_output, normalized};
use crate::text::{concatenation, decimal, decimal_text, joined};

verus! {

/// Text that names a revision of a capability.
pub open spec fn revision_text(what: Seq<char>, id: Seq<char>, revision: u64) -> Seq<char> {
    concatenation(seq![what, id, "@"@, decimal_text(revision as nat)])
}

/// The error for a revision that is not the expected one.
pub fn stale_revision(what: &str, id: &StableId, revision: u64) -> (r: CanonicalError)
    ensures
        r@ == CanonicalErrorView::StaleEntity(revision_text(what@, id@, revision)),
{
    let number = decimal(revision);
    let name = id.text();
    let pieces = vec![what, name.as_str(), "@", number.as_str()];
    proof {
        assert(Seq::new(pieces@.len(), |k: int| pieces@[k]@) =~= seq![
            what@,
            id@,
            "@"@,
            decimal_text(revision as nat),
        ]);
    }
    CanonicalError::StaleEntity(joined(pieces))
}

/// Why a tool adapter does not take an input, if it does not.
pub open spec fn tool_refusal(adapter: ToolAdapterView, input: ToolEffectInputView) -> Option<
    CanonicalErrorView,
> {
    if input.decision.tool_id != adapter.id || input.decision.revision != adapter.revision {
        Some(
            CanonicalErrorView::StaleEntity(
                revision_text("tool revision "@, input.decision.tool_id, input.decision.revision),
            ),
        )
    } else {
        None
    }
}

/// The canonical result of a failed tool call: the model sees what the failure shows it, and the
/// diagnostic stays apart.
pub open spec fn failure_output(
    input: ToolEffectInputView,
    error: ToolExecutionErrorView,
) -> Result<ToolEffectOutputView, CanonicalErrorView> {
    match error.model_output.raw {
        EncodedContentView::Refused(reason) => Err(
            CanonicalErrorView::Tool {
                message: "failed to serialize model-visible tool failure: "@ + reason,
                retryable: false,
            },
        ),
        EncodedContentView::Encoded(raw) => Ok(
            ToolEffectOutputView {
                call_id: input.call_id,
                provider_result_id: input.provider_result_id,
                provider_call_id: input.provider_call_id,
                name: input.decision.name,
                raw,
                presentation: error.model_output.presentation,
                failure: Some(
                    ToolEffectFailureView {
                        message: error.message,
                        retryable: error.retryable,
                        kind: error.kind,
                        refusal: error.refusal,
                    },
                ),
            },
        ),
    }
}

/// The canonical result of what running a tool gave.
pub open spec fn tool_result(input: ToolEffectInputView, outcome: ToolOutcomeView) -> Result<
    ToolEffectOutputView,
    CanonicalErrorView,
> {
    match outcome {
        ToolOutcomeView::Unencodable(reason) => Err(
            CanonicalErrorView::Tool {
                message: "failed to serialize tool arguments: "@ + reason,
                retryable: false,
            },
        ),
        ToolOutcomeView::Failed(error) => failure_output(input, error),
        ToolOutcomeView::Completed(output) => match output.raw {
            EncodedContentView::Refused(reason) => Err(
                CanonicalErrorView::Tool {
                    message: "failed to serialize output: "@ + reason,
                    retryable: false,
                },
            ),
            EncodedContentView::Encoded(raw) => Ok(
                ToolEffectOutputView {
                    call_id: input.call_id,
                    provider_result_id: input.provider_result_id,
                    provider_call_id: input.provider_call_id,
                    name: input.decision.name,
                    raw,
                    presentation: output.presentation,
                    failure: None,
                },
            ),
        },
    }
}

/// What an executable tool result stands for.
pub open spec fn tool_result_view(r: Result<ToolEffectOutput, CanonicalError>) -> Result<
    ToolEffectOutputView,
    CanonicalErrorView,
> {
    match r {
        Ok(output) => Ok(output@),
        Err(error) => Err(error@),
    }
}

fn tool_error(prefix: &str, reason: &String) -> (r: CanonicalError)
    ensures
        r@ == (CanonicalErrorView::Tool { message: prefix@ + reason@, retryable: false }),
{
    let mut message = prefix.to_owned();
    message.append(reason.as_str());
    CanonicalError::Tool { message, retryable: false }
}

/// The canonical result of a failed tool call.
pub fn tool_failure_output(input: ToolEffectInput, error: ToolExecutionError) -> (r: Result<
    ToolEffectOutput,
    CanonicalError,
>)
    ensures
        tool_result_view(r) == failure_output(input@, error@),
{
    match error.model_output.raw {
        EncodedContent::Refused(reason) => Err(
            tool_error("failed to serialize model-visible tool failure: ", &reason),
        ),
        EncodedContent::Encoded(raw) => Ok(
            ToolEffectOutput {
                call_id: input.call_id,
                provider_result_id: input.provider_result_id,
                provider_call_id: input.provider_call_id,
                name: input.decision.name,
                raw,
                presentation: error.model_output.presentation,
                failure: Some(
                    ToolEffectFailure {
                        message: error.message,
                        retryable: error.retryable,
                        kind: error.kind,
                        refusal: error.refusal,
                    },
                ),
            },
        ),
    }
}

impl ToolAdapter {
    /// Binds an implementation to a stable capability revision.
    pub fn new(id: StableId, revision: u64) -> (r: Self)
        ensures
            r@ == (ToolAdapterView { id: id@, revision }),
    {
        ToolAdapter { id, revision }
    }

    /// Takes only an input snapshotted for this exact implementation.
    pub fn admit_input(&self, input: &ToolEffectInput) -> (r: Result<(), CanonicalError>)
        ensures
            match r {
                Ok(_) => tool_refusal(self@, input@) is None,
                Err(error) => tool_refusal(self@, input@) == Some(error@),
            },
    {
        if !input.decision.tool_id.same(&self.id) || input.decision.revision != self.revision {
            return Err(
                stale_revision("tool revision ", &input.decision.tool_id, input.decision.revision),
            );
        }
        Ok(())
    }

    /// The result of an invocation, from what running the implementation on it gave. An input
    /// for another revision is refused whatever it gave.
    pub fn execute(&self, input: ToolEffectInput, outcome: ToolOutcome) -> (r: Result<
        ToolEffectOutput,
        CanonicalError,
    >)
        ensures
            tool_result_view(r) == (match tool_refusal(self@, input@) {
                Some(error) => Err::<ToolEffectOutputView, CanonicalErrorView>(error),
                None => tool_result(input@, outcome@),
            }),
    {
        if let Err(error) = self.admit_input(&input) {
            return Err(error);
        }
        match outcome {
            ToolOutcome::Unencodable(reason) => Err(
                tool_error("failed to serialize tool arguments: ", &reason),
            ),
            ToolOutcome::Failed(error) => tool_failure_output(input, error),
            ToolOutcome::Completed(output) => match output.raw {
                EncodedContent::Refused(reason) => Err(
                    tool_error("failed to serialize output: ", &reason),
                ),
                EncodedContent::Encoded(raw) => Ok(
                    ToolEffectOutput {
                        call_id: input.call_id,
                        provider_result_id: input.provider_result_id,
                        provider_call_id: input.provider_call_id,
                        name: input.decision.name,
                        raw,
                        presentation: output.presentation,
                        failure: None,
                    },
                ),
            },
        }
    }
}

/// Diagnostic for arguments that do not have the shape that a tool takes.
pub fn argument_diagnostic(reason: &str) -> (r: String)
    ensures
        r@ == "failed to parse tool arguments: "@ + reason@,
{
    let mut r = "failed to parse tool arguments: ".to_owned();
    r.append(reason);
    r
}

/// The text of a document that was found: the indented text of its value, or else the compact one.
pub open spec fn document_text(pretty: Option<Seq<char>>, value: serde_json::Value) -> Seq<char> {
    match pretty {
        Some(text) => text,
        None => json_text(value),
    }
}

/// The documents for what a search found, in order.
pub open spec fn documents_found(hits: Seq<(String, serde_json::Value)>) -> Seq<
    RetrievedDocumentView,
> {
    Seq::new(
        hits.len(),
        |i: int|
            RetrievedDocumentView {
                id: hits[i].0@,
                text: document_text(json_pretty(hits[i].1), hits[i].1),
                metadata: Map::empty(),
            },
    )
}

/// The document for one value that a search found, given its indented text if it can be written.
pub fn retrieved_document(id: String, pretty: Option<String>, value: &serde_json::Value) -> (r:
    RetrievedDocument)
    ensures
        r@ == (RetrievedDocumentView {
            id: id@,
            text: document_text(pretty.deep_view(), *value),
            metadata: Map::empty(),
        }),
{
    let text = match pretty {
        Some(text) => text,
        None => print_json(value),
    };
    RetrievedDocument::new(id, text)
}

/// Makes documents of the identities and values that a search found, in order.
pub fn retrieved_documents(hits: Vec<(String, serde_json::Value)>) -> (r: Vec<RetrievedDocument>)
    ensures
        r.deep_view() == documents_found(hits@),
{
    let mut rest = hits;
    let mut r: Vec<RetrievedDocument> = Vec::new();
    while rest.len() > 0
        invariant
            r@.len() + rest@.len() == hits@.len(),
            rest@ == hits@.skip(r@.len() as int),
            r.deep_view() == documents_found(hits@).take(r@.len() as int),
        decreases rest@.len(),
    {
        let ghost done = r.deep_view();
        let ghost n = r@.len() as int;
        let (id, value) = rest.remove(0);
        assert((id, value) == hits@[n]);
        let document = retrieved_document(id, print_pretty(&value), &value);
        let ghost view = document@;
        r.push(document);
        proof {
            assert(rest@ =~= hits@.skip(n + 1));
            assert(view == documents_found(hits@)[n]);
            assert(r.deep_view() =~= done.push(view));
            assert(done.push(view) =~= documents_found(hits@).take(n + 1));
        }
    }
    assert(documents_found(hits@).take(hits@.len() as int) =~= documents_found(hits@));
    r
}

/// Why a store adapter does not take an input, if it does not.
pub open spec fn store_refusal(adapter: StoreAdapterView, input: StoreEffectInputView) -> Option<
    CanonicalErrorView,
> {
    if input.decision.store_id != adapter.id || input.decision.revision != adapter.revision {
        Some(
            CanonicalErrorView::StaleEntity(
                revision_text("store revision "@, input.decision.store_id, input.decision.revision),
            ),
        )
    } else {
        None
    }
}

impl StoreAdapter {
    /// Binds an implementation to a stable store revision.
    pub fn new(id: StableId, revision: u64) -> (r: Self)
        ensures
            r@ == (StoreAdapterView { id: id@, revision }),
    {
        StoreAdapter { id, revision }
    }

    /// Takes only an input snapshotted for this exact store revision.
    pub fn admit_input(&self, input: &StoreEffectInput) -> (r: Result<(), CanonicalError>)
        ensures
            match r {
                Ok(_) => store_refusal(self@, input@) is None,
                Err(error) => store_refusal(self@, input@) == Some(error@),
            },
    {
        if !input.decision.store_id.same(&self.id) || input.decision.revision != self.revision {
            return Err(
                stale_revision(
                    "store revision ",
                    &input.decision.store_id,
                    input.decision.revision,
                ),
            );
        }
        Ok(())
    }

    /// The result of an operation, from what the store gave. An input for another revision is
    /// refused whatever it gave.
    pub fn execute(&self, input: &StoreEffectInput, outcome: Result<StoreEffectOutput, String>) -> (r:
        Result<StoreEffectOutput, CanonicalError>)
        ensures
            match (store_refusal(self@, input@), outcome, r) {
                (Some(refusal), _, Err(error)) => error@ == refusal,
                (None, Ok(given), Ok(output)) => output == given,
                (None, Err(reason), Err(error)) => error@ == (CanonicalErrorView::Store {
                    message: reason@,
                    retryable: false,
                }),
                _ => false,
            },
    {
        if let Err(error) = self.admit_input(input) {
            return Err(error);
        }
        match outcome {
            Ok(output) => Ok(output),
            Err(message) => Err(CanonicalError::Store { message, retryable: false }),
        }
    }
}

/// Why a discovery adapter does not take an input, if it does not.
pub open spec fn discovery_refusal(
    adapter: DiscoveryAdapterView,
    input: DiscoveryEffectInputView,
) -> Option<CanonicalErrorView> {
    if input.source_id != adapter.source_id {
        Some(CanonicalErrorView::StaleEntity("discovery source "@ + input.source_id))
    } else {
        None
    }
}

impl DiscoveryAdapter {
    /// Creates a discovery adapter.
    pub fn new(source_id: StableId) -> (r: Self)
        ensures
            r@ == (DiscoveryAdapterView { source_id: source_id@ }),
    {
        DiscoveryAdapter { source_id }
    }

    /// Takes only a refresh for the bound stable source.
    pub fn admit_input(&self, input: &DiscoveryEffectInput) -> (r: Result<(), CanonicalError>)
        ensures
            match r {
                Ok(_) => discovery_refusal(self@, input@) is None,
                Err(error) => discovery_refusal(self@, input@) == Some(error@),
            },
    {
        if !input.source_id.same(&self.source_id) {
            let id = input.source_id.text();
            let mut message = "discovery source ".to_owned();
            message.append(id.as_str());
            return Err(CanonicalError::StaleEntity(message));
        }
        Ok(())
    }

    /// The result of a refresh, from what the source gave. A refresh for another source is refused
    /// whatever it gave.
    pub fn execute(
        &self,
        input: &DiscoveryEffectInput,
        outcome: Result<DiscoveryEffectOutput, String>,
    ) -> (r: Result<DiscoveryEffectOutput, CanonicalError>)
        ensures
            match (discovery_refusal(self@, input@), outcome, r) {
                (Some(refusal), _, Err(error)) => error@ == refusal,
                (None, Ok(given), Ok(output)) => output == given,
                (None, Err(reason), Err(error)) => error@ == (CanonicalErrorView::Discovery {
                    message: reason@,
                    retryable: false,
                }),
                _ => false,
            },
    {
        if let Err(error) = self.admit_input(input) {
            return Err(error);
        }
        match outcome {
            Ok(output) => Ok(output),
            Err(message) => Err(CanonicalError::Discovery { message, retryable: false }),
        }
    }
}

/// Why a model adapter does not take an input, if it does not.
pub open spec fn model_binding_refusal(
    adapter: CompletionModelAdapterView,
    input: ModelEffectInputView,
) -> Option<CanonicalErrorView> {
    match adapter.binding {
        Some(binding) => if binding != input.decision {
            Some(
                CanonicalErrorView::StaleEntity(
                    revision_text(
                        "model revision "@,
                        input.decision.model_id,
                        input.decision.revision,
                    ),
                ),
            )
        } else {
            None
        },
        None => None,
    }
}

/// The canonical output of what a model gave.
pub open spec fn model_result(outcome: Result<ModelResponseView, Seq<char>>) -> Result<
    NormalizedOutputView,
    CanonicalErrorView,
> {
    match outcome {
        Ok(response) => normalized(response.content, response.usage, response.message_id),
        Err(message) => Err(CanonicalErrorView::Provider { message, retryable: false }),
    }
}

fn same_decision(a: &ModelDecision, b: &ModelDecision) -> (r: bool)
    ensures
        r == (a@ == b@),
{
    let same = a.model_entity == b.model_entity && a.model_id.same(&b.model_id) && a.revision
        == b.revision && a.provider == b.provider && a.model == b.model && a.tenant.same(&b.tenant);
    same
}

impl CompletionModelAdapter {
    /// Takes inputs of any decision.
    pub fn new() -> (r: Self)
        ensures
            r@ == (CompletionModelAdapterView { binding: None }),
    {
        CompletionModelAdapter { binding: None }
    }

    /// Takes only inputs of one decision.
    pub fn bound(decision: ModelDecision) -> (r: Self)
        ensures
            r@ == (CompletionModelAdapterView { binding: Some(decision@) }),
    {
        CompletionModelAdapter { binding: Some(decision) }
    }

    /// Takes only an input snapshotted for the bound decision.
    pub fn validate_decision(&self, input: &ModelEffectInput) -> (r: Result<(), CanonicalError>)
        ensures
            match r {
                Ok(_) => model_binding_refusal(self@, input@) is None,
                Err(error) => model_binding_refusal(self@, input@) == Some(error@),
            },
    {
        if let Some(binding) = &self.binding {
            if !same_decision(binding, &input.decision) {
                return Err(
                    stale_revision(
                        "model revision ",
                        &input.decision.model_id,
                        input.decision.revision,
                    ),
                );
            }
        }
        Ok(())
    }

    /// The normalized result of a model effect, from what the model gave. An input of another
    /// decision is refused whatever it gave.
    pub fn execute(&self, input: &ModelEffectInput, outcome: Result<ModelResponse, String>) -> (r:
        Result<NormalizedOutput, CanonicalError>)
        requires
            outcome is Ok ==> 3 * outcome->Ok_0.content@.len() < usize::MAX,
        ensures
            (match r {
                Ok(output) => Ok::<NormalizedOutputView, CanonicalErrorView>(output@),
                Err(error) => Err::<NormalizedOutputView, CanonicalErrorView>(error@),
            }) == (match model_binding_refusal(self@, input@) {
                Some(error) => Err::<NormalizedOutputView, CanonicalErrorView>(error),
                None => model_result(
                    match outcome {
                        Ok(response) => Ok::<ModelResponseView, Seq<char>>(response@),
                        Err(message) => Err::<ModelResponseView, Seq<char>>(message@),
                    },
                ),
            }),
    {
        if let Err(error) = self.validate_decision(input) {
            return Err(error);
        }
        match outcome {
            Ok(response) => normalize_model_output(
                &response.content,
                response.usage,
                &response.message_id,
            ),
            Err(message) => Err(CanonicalError::Provider { message, retryable: false }),
        }
    }

    /// The model input of a request that is to be streamed. Only a model effect of the bound
    /// decision is streamed.
    pub fn stream_input(&self, request: EffectRequest) -> (r: Result<
        ModelEffectInput,
        CanonicalError,
    >)
        ensures
            match (request@.input, r) {
                (EffectInputView::Model(input), Ok(given)) => given@ == input
                    && model_binding_refusal(self@, input) is None,
                (EffectInputView::Model(input), Err(error)) => model_binding_refusal(self@, input)
                    == Some(error@),
                (_, Err(error)) => error@ == CanonicalErrorView::EffectKindMismatch,
                _ => false,
            },
    {
        match request.input {
            EffectInput::Model(input) => match self.validate_decision(&input) {
                Ok(_) => Ok(input),
                Err(error) => Err(error),
            },
            _ => Err(CanonicalError::EffectKindMismatch),
        }
    }
}

/// The sequence number after another; the last one stays.
pub open spec fn next_sequence(sequence: u64) -> u64 {
    if sequence == u64::MAX {
        sequence
    } else {
        (sequence + 1) as u64
    }
}

/// The delta of a piece of streamed text, numbered in order.
pub fn next_delta(operation: Entity, generation: u64, sequence: &mut u64, text: String) -> (r:
    EffectDelta)
    ensures
        r@ == (EffectDeltaView { operation, generation, sequence: *old(sequence), text: text@ }),
        *final(sequence) == next_sequence(*old(sequence)),
{
    let delta = EffectDelta { operation, generation, sequence: *sequence, text };
    *sequence = (*sequence).saturating_add(1);
    delta
}

/// The error for a delta that did not reach the runtime.
pub fn delta_failure(reason: &str) -> (r: CanonicalError)
    ensures
        r@ == (CanonicalErrorView::Provider {
            message: "stream delta ingress failed: "@ + reason@,
            retryable: true,
        }),
{
    let mut message = "stream delta ingress failed: ".to_owned();
    message.append(reason);
    CanonicalError::Provider { message, retryable: true }
}

} // verus!
