//! Stable, read-only diagnostics for live runs.
//!
//! These helpers expose stable domain identities and normalized phase descriptions, never raw
//! queues or executors.

use vstd::prelude::*;
use vstd::string::*;

use crate::capability::{AcceptedPolicyView, PolicyPoint};
use crate::column::{sources_of, Entity};
use crate::control::{control_text, RunControl};
use crate::debug_form::{
    operation_phase_debug, operation_phase_form, policy_evaluation_phase_debug,
    policy_evaluation_phase_form, run_state_debug, run_state_form,
};
use crate::effect::{OperationKind, OperationPhase};
use crate::fold::{lemma_picked_next, picked};
use crate::identity::{StableId, TenantId};
use crate::numeric::{clamp, clamped};
use crate::policy::{point_rank, PolicyEvaluationView};
use crate::run::{RunHandle, RunState, RunStateView};
use crate::runtime::Runtime;
use crate::sorting::{row_values, sort_rows, sort_values, KeyPart, KeyPartView, KeyView};
use crate::text::{concatenation, decimal, decimal_text, joined};
use crate::world::{World, WorldView};

verus! {

/// Failure to inspect a run or operation in this runtime.
#[derive(Clone, Copy, Debug, PartialEq, Eq, Structural)]
pub enum RunDebugError {
    /// The handle belongs to another runtime world.
    ForeignRuntime,
    /// The run entity is no longer live or lacks required domain state.
    StaleRun,
    /// The operation entity is no longer live.
    StaleOperation,
}

/// One operation retained by a run.
#[derive(Debug, PartialEq, Eq)]
pub struct PendingOperationDebug {
    /// Stable operation identity.
    pub id: StableId,
    /// Normalized operation kind.
    pub kind: String,
    /// Correlation generation currently accepted by ingress.
    pub generation: u64,
    /// Name of the current operation phase.
    pub phase: String,
}

/// What a [`PendingOperationDebug`] holds.
#[verifier::ext_equal]
pub struct PendingOperationDebugView {
    pub id: Seq<char>,
    pub kind: Seq<char>,
    pub generation: u64,
    pub phase: Seq<char>,
}

impl View for PendingOperationDebug {
    type V = PendingOperationDebugView;

    open spec fn view(&self) -> PendingOperationDebugView {
        PendingOperationDebugView {
            id: self.id@,
            kind: self.kind@,
            generation: self.generation,
            phase: self.phase@,
        }
    }
}

impl DeepView for PendingOperationDebug {
    type V = PendingOperationDebugView;

    open spec fn deep_view(&self) -> PendingOperationDebugView {
        self.view()
    }
}

impl Clone for PendingOperationDebug {
    fn clone(&self) -> (r: Self)
        ensures
            r@ == self@,
    {
        PendingOperationDebug {
            id: self.id.clone(),
            kind: self.kind.clone(),
            generation: self.generation,
            phase: self.phase.clone(),
        }
    }
}

/// One accepted policy revision without runtime-local entity IDs.
#[derive(Debug, PartialEq, Eq)]
pub struct AcceptedPolicyDebug {
    /// Stable policy identity.
    pub id: StableId,
    /// Exact accepted revision.
    pub revision: u64,
    /// Deterministic ordering key.
    pub order: u32,
    /// Lifecycle point accepted by the operation.
    pub point: PolicyPoint,
}

/// What a [`AcceptedPolicyDebug`] holds.
#[verifier::ext_equal]
pub struct AcceptedPolicyDebugView {
    pub id: Seq<char>,
    pub revision: u64,
    pub order: u32,
    pub point: PolicyPoint,
}

impl View for AcceptedPolicyDebug {
    type V = AcceptedPolicyDebugView;

    open spec fn view(&self) -> AcceptedPolicyDebugView {
        AcceptedPolicyDebugView {
            id: self.id@,
            revision: self.revision,
            order: self.order,
            point: self.point,
        }
    }
}

impl DeepView for AcceptedPolicyDebug {
    type V = AcceptedPolicyDebugView;

    open spec fn deep_view(&self) -> AcceptedPolicyDebugView {
        self.view()
    }
}

impl Clone for AcceptedPolicyDebug {
    fn clone(&self) -> (r: Self)
        ensures
            r@ == self@,
    {
        AcceptedPolicyDebug {
            id: self.id.clone(),
            revision: self.revision,
            order: self.order,
            point: self.point,
        }
    }
}

/// Cursor and phase for a durable policy evaluation.
#[derive(Debug, PartialEq, Eq)]
pub struct PolicyEvaluationDebug {
    /// Evaluation family.
    pub kind: String,
    /// Next policy index.
    pub cursor: usize,
    /// Number of snapshotted policies.
    pub policy_count: usize,
    /// Name of the current evaluation phase.
    pub phase: String,
}

/// What a [`PolicyEvaluationDebug`] holds.
#[verifier::ext_equal]
pub struct PolicyEvaluationDebugView {
    pub kind: Seq<char>,
    pub cursor: usize,
    pub policy_count: usize,
    pub phase: Seq<char>,
}

impl View for PolicyEvaluationDebug {
    type V = PolicyEvaluationDebugView;

    open spec fn view(&self) -> PolicyEvaluationDebugView {
        PolicyEvaluationDebugView {
            kind: self.kind@,
            cursor: self.cursor,
            policy_count: self.policy_count,
            phase: self.phase@,
        }
    }
}

impl DeepView for PolicyEvaluationDebug {
    type V = PolicyEvaluationDebugView;

    open spec fn deep_view(&self) -> PolicyEvaluationDebugView {
        self.view()
    }
}

impl Clone for PolicyEvaluationDebug {
    fn clone(&self) -> (r: Self)
        ensures
            r@ == self@,
    {
        PolicyEvaluationDebug {
            kind: self.kind.clone(),
            cursor: self.cursor,
            policy_count: self.policy_count,
            phase: self.phase.clone(),
        }
    }
}

/// Structured reason a run currently cannot make user-visible progress.
#[derive(Debug, PartialEq, Eq)]
pub enum StalledReason {
    /// The run is eligible for another schedule transition.
    Ready,
    /// Explicit run control prevents internal progression.
    Paused(String),
    /// An external effect has not settled.
    WaitingForEffect(PendingOperationDebug),
    /// An atomic tool batch still has unsettled members.
    WaitingForToolBatch {
        /// Operations of the batch.
        expected: u32,
        /// Operations of the batch that are over.
        settled: u32,
    },
    /// The parent cannot continue until children commit terminal results.
    WaitingForChildren(Vec<StableId>),
    /// The run already has a terminal outcome.
    Terminal(String),
    /// State is internally inconsistent and needs operator attention.
    Inconsistent(String),
}

/// What a [`StalledReason`] holds.
#[verifier::ext_equal]
pub enum StalledReasonView {
    Ready,
    Paused(Seq<char>),
    WaitingForEffect(PendingOperationDebugView),
    WaitingForToolBatch { expected: u32, settled: u32 },
    WaitingForChildren(Seq<Seq<char>>),
    Terminal(Seq<char>),
    Inconsistent(Seq<char>),
}

impl View for StalledReason {
    type V = StalledReasonView;

    open spec fn view(&self) -> StalledReasonView {
        match self {
            StalledReason::Ready => StalledReasonView::Ready,
            StalledReason::Paused(x) => StalledReasonView::Paused(x@),
            StalledReason::WaitingForEffect(x) => StalledReasonView::WaitingForEffect(x@),
            StalledReason::WaitingForToolBatch { expected, settled } => StalledReasonView::WaitingForToolBatch {
                expected: *expected,
                settled: *settled,
            },
            StalledReason::WaitingForChildren(x) => StalledReasonView::WaitingForChildren(x.deep_view()),
            StalledReason::Terminal(x) => StalledReasonView::Terminal(x@),
            StalledReason::Inconsistent(x) => StalledReasonView::Inconsistent(x@),
        }
    }
}

impl DeepView for StalledReason {
    type V = StalledReasonView;

    open spec fn deep_view(&self) -> StalledReasonView {
        self.view()
    }
}

impl Clone for StalledReason {
    fn clone(&self) -> (r: Self)
        ensures
            r@ == self@,
    {
        let r = match self {
            StalledReason::Ready => StalledReason::Ready,
            StalledReason::Paused(x) => StalledReason::Paused(x.clone()),
            StalledReason::WaitingForEffect(x) => StalledReason::WaitingForEffect(x.clone()),
            StalledReason::WaitingForToolBatch { expected, settled } => StalledReason::WaitingForToolBatch {
                expected: *expected,
                settled: *settled,
            },
            StalledReason::WaitingForChildren(x) => StalledReason::WaitingForChildren(x.clone()),
            StalledReason::Terminal(x) => StalledReason::Terminal(x.clone()),
            StalledReason::Inconsistent(x) => StalledReason::Inconsistent(x.clone()),
        };
        assert(r@ =~~= self@);
        r
    }
}

/// Read-only summary of a live run and its retained work graph.
#[derive(Debug, PartialEq, Eq)]
pub struct RunExplanation {
    /// Stable run identity.
    pub run_id: StableId,
    /// Stable owning agent identity.
    pub agent_id: StableId,
    /// Tenant authorization scope.
    pub tenant: TenantId,
    /// Name of the authoritative run state.
    pub state: String,
    /// Orthogonal pause/control state.
    pub control: String,
    /// Next committed model-turn index.
    pub next_turn: u32,
    /// Model calls already committed.
    pub model_calls: u32,
    /// Configured model-call limit, when bounded.
    pub max_model_calls: Option<u32>,
    /// Retained operations in deterministic stable-ID order.
    pub operations: Vec<PendingOperationDebug>,
    /// Current policy cursors retained by those operations.
    pub policy_evaluations: Vec<PolicyEvaluationDebug>,
    /// Immediate diagnostic for lack of progress.
    pub stalled_reason: StalledReason,
}

/// What a [`RunExplanation`] holds.
#[verifier::ext_equal]
pub struct RunExplanationView {
    pub run_id: Seq<char>,
    pub agent_id: Seq<char>,
    pub tenant: Seq<char>,
    pub state: Seq<char>,
    pub control: Seq<char>,
    pub next_turn: u32,
    pub model_calls: u32,
    pub max_model_calls: Option<u32>,
    pub operations: Seq<PendingOperationDebugView>,
    pub policy_evaluations: Seq<PolicyEvaluationDebugView>,
    pub stalled_reason: StalledReasonView,
}

impl View for RunExplanation {
    type V = RunExplanationView;

    open spec fn view(&self) -> RunExplanationView {
        RunExplanationView {
            run_id: self.run_id@,
            agent_id: self.agent_id@,
            tenant: self.tenant@,
            state: self.state@,
            control: self.control@,
            next_turn: self.next_turn,
            model_calls: self.model_calls,
            max_model_calls: self.max_model_calls,
            operations: self.operations.deep_view(),
            policy_evaluations: self.policy_evaluations.deep_view(),
            stalled_reason: self.stalled_reason@,
        }
    }
}

impl DeepView for RunExplanation {
    type V = RunExplanationView;

    open spec fn deep_view(&self) -> RunExplanationView {
        self.view()
    }
}

impl Clone for RunExplanation {
    fn clone(&self) -> (r: Self)
        ensures
            r@ == self@,
    {
        let r = RunExplanation {
            run_id: self.run_id.clone(),
            agent_id: self.agent_id.clone(),
            tenant: self.tenant.clone(),
            state: self.state.clone(),
            control: self.control.clone(),
            next_turn: self.next_turn,
            model_calls: self.model_calls,
            max_model_calls: self.max_model_calls,
            operations: self.operations.clone(),
            policy_evaluations: self.policy_evaluations.clone(),
            stalled_reason: self.stalled_reason.clone(),
        };
        assert(r.operations.deep_view() =~= self.operations.deep_view());
        assert(r.policy_evaluations.deep_view() =~= self.policy_evaluations.deep_view());
        r
    }
}

/// A character as it stands in a label.
pub open spec fn escape_char(c: char) -> Seq<char> {
    if c == '\\' {
        seq!['\\', '\\']
    } else if c == '"' {
        seq!['\\', '"']
    } else if c == '\r' {
        seq!['\\', 'r']
    } else if c == '\n' {
        seq!['\\', 'n']
    } else {
        seq![c]
    }
}

/// A text as it stands in a label.
pub open spec fn escaped(text: Seq<char>) -> Seq<char>
    decreases text.len(),
{
    if text.len() == 0 {
        Seq::empty()
    } else {
        escaped(text.drop_last()) + escape_char(text.last())
    }
}

/// Escapes a text for a Graphviz label.
pub fn escape_dot_label(value: &str) -> (r: String)
    ensures
        r@ == escaped(value@),
{
    let n: usize = value.unicode_len();
    let mut r = String::new();
    let mut i: usize = 0;
    assert(value@.take(0) =~= Seq::empty());
    while i < n
        invariant
            i <= n,
            n == value@.len(),
            r@ == escaped(value@.take(i as int)),
        decreases n - i,
    {
        let c = value.get_char(i);
        proof {
            let upto = value@.take(i + 1);
            assert(upto.drop_last() =~= value@.take(i as int));
            assert(upto.last() == c);
        }
        let ghost before = r@;
        if c == '\\' {
            r.push('\\');
            r.push('\\');
        } else if c == '"' {
            r.push('\\');
            r.push('"');
        } else if c == '\r' {
            r.push('\\');
            r.push('r');
        } else if c == '\n' {
            r.push('\\');
            r.push('n');
        } else {
            r.push(c);
        }
        assert(r@ =~= before + escape_char(c));
        i = i + 1;
    }
    assert(value@.take(i as int) =~= value@);
    r
}

/// A label holds no line break.
pub proof fn law_labels_hold_no_line_break(text: Seq<char>)
    ensures
        !escaped(text).contains('\n'),
        !escaped(text).contains('\r'),
    decreases text.len(),
{
    if text.len() > 0 {
        law_labels_hold_no_line_break(text.drop_last());
        let front = escaped(text.drop_last());
        let back = escape_char(text.last());
        assert forall|c: char| (c == '\n' || c == '\r') implies !(front + back).contains(c) by {
            if (front + back).contains(c) {
                let k = choose|k: int| 0 <= k < (front + back).len() && (front + back)[k] == c;
                if k < front.len() {
                    assert(front[k] == c);
                } else {
                    assert(back[k - front.len()] == c);
                }
            }
        }
    }
}

/// The text that a label stands for, read from the front.
pub open spec fn unescaped(label: Seq<char>) -> Seq<char>
    decreases label.len(),
{
    if label.len() == 0 {
        Seq::empty()
    } else if label[0] == '\\' && label.len() > 1 {
        let c = if label[1] == 'r' {
            '\r'
        } else if label[1] == 'n' {
            '\n'
        } else {
            label[1]
        };
        seq![c] + unescaped(label.skip(2))
    } else {
        seq![label[0]] + unescaped(label.skip(1))
    }
}

proof fn lemma_escaped_front(text: Seq<char>)
    requires
        text.len() > 0,
    ensures
        escaped(text) == escape_char(text[0]) + escaped(text.skip(1)),
    decreases text.len(),
{
    if text.len() == 1 {
        assert(text.drop_last() =~= Seq::empty());
        assert(text.skip(1) =~= Seq::empty());
        assert(Seq::<char>::empty() + escape_char(text[0]) =~= escape_char(text[0])
            + Seq::<char>::empty());
    } else {
        let front = text.drop_last();
        lemma_escaped_front(front);
        assert(front.skip(1) =~= text.skip(1).drop_last());
        assert(text.skip(1).last() == text.last());
        assert((escape_char(text[0]) + escaped(front.skip(1))) + escape_char(text.last())
            =~= escape_char(text[0]) + (escaped(front.skip(1)) + escape_char(text.last())));
    }
}

/// A label stands for the text that it was made of: nothing in a text can end the label or be
/// taken for something else.
pub proof fn law_labels_read_back(text: Seq<char>)
    ensures
        unescaped(escaped(text)) == text,
    decreases text.len(),
{
    if text.len() > 0 {
        lemma_escaped_front(text);
        law_labels_read_back(text.skip(1));
        let first = escape_char(text[0]);
        let rest = escaped(text.skip(1));
        let label = first + rest;
        assert(text =~= seq![text[0]] + text.skip(1));
        if first.len() == 2 {
            assert(label.skip(2) =~= rest);
            assert(label[0] == '\\');
            assert(label[1] == first[1]);
        } else {
            assert(label.skip(1) =~= rest);
            assert(label[0] == text[0]);
        }
    } else {
        assert(escaped(text) =~= Seq::empty());
        assert(text =~= Seq::empty());
    }
}

/// Name of an operation kind.
pub open spec fn kind_text(kind: OperationKind) -> Seq<char> {
    match kind {
        OperationKind::Model => "Model"@,
        OperationKind::Tool => "Tool"@,
        OperationKind::Discovery => "Discovery"@,
        OperationKind::Store => "Store"@,
    }
}

/// Name of the family of an evaluation.
pub open spec fn evaluation_kind_text(point: PolicyPoint) -> Seq<char> {
    match point {
        PolicyPoint::Request => "request"@,
        PolicyPoint::ToolCall => "tool_call"@,
        PolicyPoint::InvalidToolCall => "invalid_tool_call"@,
        PolicyPoint::ToolResult => "tool_result"@,
        PolicyPoint::CompletionResponse => "completion_response"@,
        PolicyPoint::TextDelta => "text_delta"@,
        PolicyPoint::ToolCallDelta => "tool_call_delta"@,
    }
}

fn name_kind(kind: OperationKind) -> (r: String)
    ensures
        r@ == kind_text(kind),
{
    match kind {
        OperationKind::Model => "Model".to_owned(),
        OperationKind::Tool => "Tool".to_owned(),
        OperationKind::Discovery => "Discovery".to_owned(),
        OperationKind::Store => "Store".to_owned(),
    }
}

fn name_evaluation_kind(point: PolicyPoint) -> (r: String)
    ensures
        r@ == evaluation_kind_text(point),
{
    match point {
        PolicyPoint::Request => "request".to_owned(),
        PolicyPoint::ToolCall => "tool_call".to_owned(),
        PolicyPoint::InvalidToolCall => "invalid_tool_call".to_owned(),
        PolicyPoint::ToolResult => "tool_result".to_owned(),
        PolicyPoint::CompletionResponse => "completion_response".to_owned(),
        PolicyPoint::TextDelta => "text_delta".to_owned(),
        PolicyPoint::ToolCallDelta => "tool_call_delta".to_owned(),
    }
}

/// Whether an entity carries any of the components that every entity is made with one of.
pub open spec fn is_live(w: WorldView, e: Entity) -> bool {
    ||| w.stable_ids.contains_key(e)
    ||| w.tenants.contains_key(e)
    ||| w.runs.states.contains_key(e)
    ||| w.runs.turns.contains_key(e)
    ||| w.runs.subscriptions.contains_key(e)
    ||| w.operations.states.contains_key(e)
    ||| w.operations.batches.contains_key(e)
    ||| w.controls.evaluations.contains_key(e)
}

/// The identity of an entity, or one made of its number.
pub open spec fn debug_id(w: WorldView, e: Entity, kind: Seq<char>) -> Seq<char> {
    if w.stable_ids.contains_key(e) {
        w.stable_ids[e]
    } else {
        kind + "-"@ + decimal_text(e.0 as nat)
    }
}

/// The description of an operation, if it is one.
pub open spec fn operation_row(w: WorldView, e: Entity) -> Option<PendingOperationDebugView> {
    if w.operations.kinds.contains_key(e) && w.operations.states.contains_key(e) {
        Some(
            PendingOperationDebugView {
                id: debug_id(w, e, "operation"@),
                kind: kind_text(w.operations.kinds[e]),
                generation: w.operations.states[e].generation,
                phase: operation_phase_debug(w.operations.states[e].phase),
            },
        )
    } else {
        None
    }
}

/// The sort row of an operation.
pub open spec fn operation_rank(w: WorldView, e: Entity) -> Option<
    (KeyView, PendingOperationDebugView),
> {
    match operation_row(w, e) {
        Some(row) => Some((seq![KeyPartView::Text(row.id)], row)),
        None => None,
    }
}

/// The operations of a run in the order of their ids.
pub open spec fn pending_of(w: WorldView, run: Entity) -> Seq<PendingOperationDebugView> {
    row_values(
        sort_rows(
            picked(sources_of(w.operations.operation_of, run), |e: Entity| operation_rank(w, e)),
        ),
    )
}

/// The sort row of an accepted policy.
pub open spec fn accepted_rank(policy: AcceptedPolicyView) -> (KeyView, AcceptedPolicyDebugView) {
    (
        seq![
            KeyPartView::Number(point_rank(policy.point) as u64),
            KeyPartView::Number(policy.order as u64),
            KeyPartView::Text(policy.id),
        ],
        AcceptedPolicyDebugView {
            id: policy.id,
            revision: policy.revision,
            order: policy.order,
            point: policy.point,
        },
    )
}

/// The policies that an operation accepted.
pub open spec fn accepted_by(w: WorldView, operation: Entity) -> Seq<AcceptedPolicyView> {
    if w.operations.accepted_policies.contains_key(operation) {
        w.operations.accepted_policies[operation].0
    } else {
        Seq::empty()
    }
}

/// The policies that an operation accepted, in the order of their point, order and id.
pub open spec fn accepted_of(w: WorldView, operation: Entity) -> Seq<AcceptedPolicyDebugView> {
    let accepted = accepted_by(w, operation);
    row_values(sort_rows(Seq::new(accepted.len(), |i: int| accepted_rank(accepted[i]))))
}

/// The description of an evaluation.
pub open spec fn evaluation_row(evaluation: PolicyEvaluationView) -> PolicyEvaluationDebugView {
    PolicyEvaluationDebugView {
        kind: evaluation_kind_text(evaluation.point),
        cursor: evaluation.cursor,
        policy_count: evaluation.policies.len() as usize,
        phase: policy_evaluation_phase_debug(evaluation.phase),
    }
}

/// The sort row of an evaluation, if it is one.
pub open spec fn evaluation_rank(w: WorldView, e: Entity) -> Option<
    (KeyView, PolicyEvaluationDebugView),
> {
    if w.controls.evaluations.contains_key(e) {
        let row = evaluation_row(w.controls.evaluations[e]);
        Some((seq![KeyPartView::Text(row.kind)], row))
    } else {
        None
    }
}

/// The sort rows of the evaluations of the first operations.
pub open spec fn evaluations_upto(w: WorldView, operations: Seq<Entity>, n: int) -> Seq<
    (KeyView, PolicyEvaluationDebugView),
>
    decreases n,
{
    if n <= 0 {
        Seq::empty()
    } else {
        evaluations_upto(w, operations, n - 1) + picked(
            sources_of(w.controls.evaluation_of, operations[n - 1]),
            |e: Entity| evaluation_rank(w, e),
        )
    }
}

/// The evaluations of the operations of a run, by family.
pub open spec fn evaluations_of(w: WorldView, run: Entity) -> Seq<PolicyEvaluationDebugView> {
    let operations = sources_of(w.operations.operation_of, run);
    row_values(sort_rows(evaluations_upto(w, operations, operations.len() as int)))
}

/// The control of a run; one without an own control runs.
pub open spec fn control_of(w: WorldView, run: Entity) -> RunControl {
    if w.controls.controls.contains_key(run) {
        w.controls.controls[run]
    } else {
        RunControl::Running
    }
}

/// The sort row of a child, if it has an identity.
pub open spec fn child_id_rank(w: WorldView, e: Entity) -> Option<(KeyView, Seq<char>)> {
    if w.stable_ids.contains_key(e) {
        Some((seq![KeyPartView::Text(w.stable_ids[e])], w.stable_ids[e]))
    } else {
        None
    }
}

/// The ids of the children of a run in order.
pub open spec fn child_ids(w: WorldView, run: Entity) -> Seq<Seq<char>> {
    row_values(
        sort_rows(
            picked(sources_of(w.controls.parents, run), |e: Entity| child_id_rank(w, e)),
        ),
    )
}

/// An operation of a batch, if it is over.
pub open spec fn over(w: WorldView, e: Entity) -> Option<Entity> {
    if w.operations.states.contains_key(e) && (w.operations.states[e].phase is Settled
        || w.operations.states[e].phase is Cancelled) {
        Some(e)
    } else {
        None
    }
}

/// The operations of a batch that are over.
pub open spec fn over_in(w: WorldView, batch: Entity) -> Seq<Entity> {
    picked(sources_of(w.operations.operation_of_batch, batch), |e: Entity| over(w, e))
}

/// Why a run cannot make progress that its user sees.
pub open spec fn stalled(w: WorldView, run: Entity) -> Result<StalledReasonView, RunDebugError> {
    if control_of(w, run) != RunControl::Running {
        Ok(StalledReasonView::Paused(control_text(control_of(w, run))))
    } else if sources_of(w.controls.parents, run).len() > 0
        && w.controls.waiting_for_children.contains_key(run) {
        Ok(StalledReasonView::WaitingForChildren(child_ids(w, run)))
    } else {
        match w.runs.states[run] {
            RunStateView::Queued => Ok(StalledReasonView::Ready),
            RunStateView::WaitingModel { operation } => match operation_row(w, operation) {
                Some(row) => Ok(StalledReasonView::WaitingForEffect(row)),
                None => Err(RunDebugError::StaleOperation),
            },
            RunStateView::WaitingStore { operation } => match operation_row(w, operation) {
                Some(row) => Ok(StalledReasonView::WaitingForEffect(row)),
                None => Err(RunDebugError::StaleOperation),
            },
            RunStateView::WaitingTools { batch } => if w.operations.batches.contains_key(batch) {
                Ok(
                    StalledReasonView::WaitingForToolBatch {
                        expected: w.operations.batches[batch].expected,
                        settled: clamped(over_in(w, batch).len()),
                    },
                )
            } else {
                Err(RunDebugError::StaleOperation)
            },
            RunStateView::Completed(_) => Ok(StalledReasonView::Terminal("completed"@)),
            RunStateView::Failed(_) => Ok(StalledReasonView::Terminal("failed"@)),
            RunStateView::Cancelled => Ok(StalledReasonView::Terminal("cancelled"@)),
        }
    }
}

/// Why a run of a runtime cannot be inspected, if it cannot.
pub open spec fn inspection_fault(
    w: WorldView,
    runtime_id: u64,
    run: RunHandle,
) -> Option<RunDebugError> {
    if run.runtime_id != runtime_id {
        Some(RunDebugError::ForeignRuntime)
    } else if !w.runs.states.contains_key(run.entity) {
        Some(RunDebugError::StaleRun)
    } else {
        None
    }
}

/// The explanation of a run.
pub open spec fn explained(w: WorldView, run: Entity) -> Result<RunExplanationView, RunDebugError> {
    if !w.stable_ids.contains_key(run) || !w.tenants.contains_key(run)
        || !w.runs.run_of.contains_key(run) || !w.stable_ids.contains_key(w.runs.run_of[run])
        || !w.runs.records.contains_key(run) {
        Err(RunDebugError::StaleRun)
    } else {
        match stalled(w, run) {
            Err(error) => Err(error),
            Ok(stalled_reason) => Ok(
                RunExplanationView {
                    run_id: w.stable_ids[run],
                    agent_id: w.stable_ids[w.runs.run_of[run]],
                    tenant: w.tenants[run],
                    state: run_state_debug(w.runs.states[run]),
                    control: control_text(control_of(w, run)),
                    next_turn: w.runs.records[run].next_turn,
                    model_calls: w.runs.records[run].next_turn,
                    max_model_calls: w.runs.records[run].max_model_calls,
                    operations: pending_of(w, run),
                    policy_evaluations: evaluations_of(w, run),
                    stalled_reason,
                },
            ),
        }
    }
}

/// The lines of a graph for its run.
pub open spec fn run_lines(id: Seq<char>, state: Seq<char>) -> Seq<char> {
    concatenation(
        seq![
            "digraph rig_run {\n  \""@,
            escaped(id),
            "\" [shape=box,label=\"run "@,
            escaped(id),
            "\\n"@,
            escaped(state),
            "\"];\n"@,
        ],
    )
}

/// The lines of a graph for an operation.
pub open spec fn operation_lines(
    run: Seq<char>,
    operation: PendingOperationDebugView,
) -> Seq<char> {
    concatenation(
        seq![
            "  \""@,
            escaped(operation.id),
            "\" [label=\""@,
            escaped(operation.kind),
            "\\n"@,
            escaped(operation.phase),
            "\"];\n  \""@,
            escaped(run),
            "\" -> \""@,
            escaped(operation.id),
            "\";\n"@,
        ],
    )
}

/// The lines of a graph for a child.
pub open spec fn child_lines(run: Seq<char>, id: Seq<char>, state: Seq<char>) -> Seq<char> {
    concatenation(
        seq![
            "  \""@,
            escaped(id),
            "\" [shape=box,label=\"child "@,
            escaped(id),
            "\\n"@,
            escaped(state),
            "\"];\n  \""@,
            escaped(run),
            "\" -> \""@,
            escaped(id),
            "\" [label=\"child\"];\n"@,
        ],
    )
}

/// The lines of a graph for the first operations.
pub open spec fn operations_lines(
    run: Seq<char>,
    operations: Seq<PendingOperationDebugView>,
    n: int,
) -> Seq<char>
    decreases n,
{
    if n <= 0 {
        Seq::empty()
    } else {
        operations_lines(run, operations, n - 1) + operation_lines(run, operations[n - 1])
    }
}

/// The sort row of a child, with what its lines show, if it is a run with an identity.
pub open spec fn child_rank(w: WorldView, e: Entity) -> Option<(KeyView, (Seq<char>, Seq<char>))> {
    if w.stable_ids.contains_key(e) && w.runs.states.contains_key(e) {
        Some(
            (
                seq![KeyPartView::Text(w.stable_ids[e])],
                (w.stable_ids[e], run_state_debug(w.runs.states[e])),
            ),
        )
    } else {
        None
    }
}

/// The children of a run in the order of their ids.
pub open spec fn children_of(w: WorldView, run: Entity) -> Seq<(Seq<char>, Seq<char>)> {
    row_values(
        sort_rows(picked(sources_of(w.controls.parents, run), |e: Entity| child_rank(w, e))),
    )
}

/// The lines of a graph for the first children.
pub open spec fn children_lines(
    run: Seq<char>,
    children: Seq<(Seq<char>, Seq<char>)>,
    n: int,
) -> Seq<char>
    decreases n,
{
    if n <= 0 {
        Seq::empty()
    } else {
        children_lines(run, children, n - 1) + child_lines(
            run,
            children[n - 1].0,
            children[n - 1].1,
        )
    }
}

/// The graph of a run: its operations and its children in the order of their ids.
pub open spec fn graph_text(w: WorldView, run: Entity, explanation: RunExplanationView) -> Seq<char> {
    let id = explanation.run_id;
    let children = children_of(w, run);
    run_lines(id, explanation.state) + operations_lines(
        id,
        explanation.operations,
        explanation.operations.len() as int,
    ) + children_lines(id, children, children.len() as int) + "}\n"@
}

fn describe_id(world: &World, e: Entity) -> (r: StableId)
    ensures
        r@ == debug_id(world@, e, "operation"@),
{
    match world.stable_ids.get(e) {
        Some(id) => id.clone(),
        None => {
            let number = decimal(e.0);
            let mut text = "operation".to_owned();
            text.append("-");
            text.append(number.as_str());
            StableId::generated(text)
        },
    }
}

fn describe_operation(world: &World, e: Entity) -> (r: Option<PendingOperationDebug>)
    ensures
        r.deep_view() == operation_row(world@, e),
{
    match (world.operations.kinds.get(e), world.operations.states.get(e)) {
        (Some(kind), Some(state)) => Some(
            PendingOperationDebug {
                id: describe_id(world, e),
                kind: name_kind(*kind),
                generation: state.generation,
                phase: operation_phase_form(&state.phase),
            },
        ),
        _ => None,
    }
}

fn read_control(world: &World, run: Entity) -> (r: RunControl)
    ensures
        r == control_of(world@, run),
{
    match world.controls.controls.get(run) {
        Some(control) => *control,
        None => RunControl::Running,
    }
}

fn list_child_ids(world: &World, run: Entity) -> (r: Vec<StableId>)
    ensures
        r.deep_view() == child_ids(world@, run),
{
    broadcast use crate::fold::group_fold;

    let ids = world.controls.parents.sources(run);
    let ghost pick = |e: Entity| child_id_rank(world@, e);
    let mut rows: Vec<(Vec<KeyPart>, StableId)> = Vec::new();
    assert(rows.deep_view() =~= Seq::empty());
    let mut i: usize = 0;
    while i < ids.len()
        invariant
            i <= ids@.len(),
            pick == (|e: Entity| child_id_rank(world@, e)),
            rows.deep_view() == picked(ids@.take(i as int), pick),
        decreases ids@.len() - i,
    {
        proof {
            lemma_picked_next(ids@, i as int, pick);
        }
        if let Some(id) = world.stable_ids.get(ids[i]) {
            let ghost before = rows.deep_view();
            let key = vec![KeyPart::Text(id.text())];
            assert(key.deep_view() =~= seq![KeyPartView::Text(id@)]);
            rows.push((key, id.clone()));
            assert(rows.deep_view() =~= before.push((seq![KeyPartView::Text(id@)], id@)));
        }
        i = i + 1;
    }
    sort_values(rows)
}

fn count_over(world: &World, batch: Entity) -> (r: usize)
    ensures
        r == over_in(world@, batch).len(),
{
    broadcast use crate::fold::group_fold;

    let ids = world.operations.operation_of_batch.sources(batch);
    let ghost pick = |e: Entity| over(world@, e);
    let mut count: usize = 0;
    let mut i: usize = 0;
    while i < ids.len()
        invariant
            i <= ids@.len(),
            pick == (|e: Entity| over(world@, e)),
            count == picked(ids@.take(i as int), pick).len(),
            count <= i,
        decreases ids@.len() - i,
    {
        proof {
            lemma_picked_next(ids@, i as int, pick);
        }
        let ended = match world.operations.states.get(ids[i]) {
            Some(state) => matches!(
                state.phase,
                OperationPhase::Settled(_) | OperationPhase::Cancelled
            ),
            None => false,
        };
        if ended {
            count = count + 1;
        }
        i = i + 1;
    }
    count
}

fn list_evaluations(world: &World, run: Entity) -> (r: Vec<PolicyEvaluationDebug>)
    ensures
        r.deep_view() == evaluations_of(world@, run),
{
    broadcast use crate::fold::group_fold;

    let operations = world.operations.operation_of.sources(run);
    let ghost pick = |e: Entity| evaluation_rank(world@, e);
    let mut rows: Vec<(Vec<KeyPart>, PolicyEvaluationDebug)> = Vec::new();
    assert(rows.deep_view() =~= Seq::empty());
    let mut i: usize = 0;
    while i < operations.len()
        invariant
            i <= operations@.len(),
            pick == (|e: Entity| evaluation_rank(world@, e)),
            rows.deep_view() == evaluations_upto(world@, operations@, i as int),
        decreases operations@.len() - i,
    {
        let ghost done = rows.deep_view();
        let ids = world.controls.evaluation_of.sources(operations[i]);
        let mut j: usize = 0;
        assert(done + picked(ids@.take(0), pick) =~= done);
        while j < ids.len()
            invariant
                j <= ids@.len(),
                pick == (|e: Entity| evaluation_rank(world@, e)),
                rows.deep_view() == done + picked(ids@.take(j as int), pick),
            decreases ids@.len() - j,
        {
            proof {
                lemma_picked_next(ids@, j as int, pick);
            }
            if let Some(evaluation) = world.controls.evaluations.get(ids[j]) {
                let ghost before = rows.deep_view();
                let row = PolicyEvaluationDebug {
                    kind: name_evaluation_kind(evaluation.point),
                    cursor: evaluation.cursor,
                    policy_count: evaluation.policies.len(),
                    phase: policy_evaluation_phase_form(&evaluation.phase),
                };
                let key = vec![KeyPart::Text(row.kind.clone())];
                proof {
                    assert(key.deep_view() =~= seq![KeyPartView::Text(row@.kind)]);
                    assert(row@ == evaluation_row(world@.controls.evaluations[ids@[j as int]]));
                }
                let ghost view = (key.deep_view(), row@);
                rows.push((key, row));
                proof {
                    assert(rows.deep_view() =~= before.push(view));
                    assert(before.push(view) =~= done + picked(ids@.take(j as int), pick).push(
                        view,
                    ));
                }
            }
            j = j + 1;
        }
        proof {
            assert(ids@.take(j as int) =~= ids@);
            let w = world@;
            assert(pick == (|e: Entity| evaluation_rank(w, e)));
            assert(evaluations_upto(w, operations@, i + 1) == done + picked(ids@, pick));
        }
        i = i + 1;
    }
    sort_values(rows)
}

fn list_children(world: &World, run: Entity) -> (r: Vec<(String, String)>)
    ensures
        r.deep_view() == children_of(world@, run),
{
    broadcast use crate::fold::group_fold;

    let ids = world.controls.parents.sources(run);
    let ghost pick = |e: Entity| child_rank(world@, e);
    let mut rows: Vec<(Vec<KeyPart>, (String, String))> = Vec::new();
    assert(rows.deep_view() =~= Seq::empty());
    let mut i: usize = 0;
    while i < ids.len()
        invariant
            i <= ids@.len(),
            pick == (|e: Entity| child_rank(world@, e)),
            rows.deep_view() == picked(ids@.take(i as int), pick),
        decreases ids@.len() - i,
    {
        proof {
            lemma_picked_next(ids@, i as int, pick);
        }
        if let (Some(id), Some(state)) = (
            world.stable_ids.get(ids[i]),
            world.runs.states.get(ids[i]),
        ) {
            let ghost before = rows.deep_view();
            let key = vec![KeyPart::Text(id.text())];
            assert(key.deep_view() =~= seq![KeyPartView::Text(id@)]);
            rows.push((key, (id.text(), run_state_form(state))));
            assert(rows.deep_view() =~= before.push(
                (seq![KeyPartView::Text(id@)], (id@, run_state_debug(state@))),
            ));
        }
        i = i + 1;
    }
    sort_values(rows)
}

fn draw_run(id: &str, state: &str) -> (r: String)
    ensures
        r@ == run_lines(id@, state@),
{
    let label = escape_dot_label(id);
    let state = escape_dot_label(state);
    let pieces = vec![
        "digraph rig_run {\n  \"",
        label.as_str(),
        "\" [shape=box,label=\"run ",
        label.as_str(),
        "\\n",
        state.as_str(),
        "\"];\n",
    ];
    proof {
        assert(Seq::new(pieces@.len(), |k: int| pieces@[k]@) =~= seq![
            "digraph rig_run {\n  \""@,
            label@,
            "\" [shape=box,label=\"run "@,
            label@,
            "\\n"@,
            state@,
            "\"];\n"@,
        ]);
    }
    joined(pieces)
}

fn draw_operation(run: &str, operation: &PendingOperationDebug) -> (r: String)
    ensures
        r@ == operation_lines(run@, operation@),
{
    let run = escape_dot_label(run);
    let id = escape_dot_label(operation.id.as_str());
    let kind = escape_dot_label(operation.kind.as_str());
    let phase = escape_dot_label(operation.phase.as_str());
    let pieces = vec![
        "  \"",
        id.as_str(),
        "\" [label=\"",
        kind.as_str(),
        "\\n",
        phase.as_str(),
        "\"];\n  \"",
        run.as_str(),
        "\" -> \"",
        id.as_str(),
        "\";\n",
    ];
    proof {
        assert(Seq::new(pieces@.len(), |k: int| pieces@[k]@) =~= seq![
            "  \""@,
            id@,
            "\" [label=\""@,
            kind@,
            "\\n"@,
            phase@,
            "\"];\n  \""@,
            run@,
            "\" -> \""@,
            id@,
            "\";\n"@,
        ]);
    }
    joined(pieces)
}

fn draw_child(run: &str, id: &str, state: &str) -> (r: String)
    ensures
        r@ == child_lines(run@, id@, state@),
{
    let run = escape_dot_label(run);
    let id = escape_dot_label(id);
    let state = escape_dot_label(state);
    let pieces = vec![
        "  \"",
        id.as_str(),
        "\" [shape=box,label=\"child ",
        id.as_str(),
        "\\n",
        state.as_str(),
        "\"];\n  \"",
        run.as_str(),
        "\" -> \"",
        id.as_str(),
        "\" [label=\"child\"];\n",
    ];
    proof {
        assert(Seq::new(pieces@.len(), |k: int| pieces@[k]@) =~= seq![
            "  \""@,
            id@,
            "\" [shape=box,label=\"child "@,
            id@,
            "\\n"@,
            state@,
            "\"];\n  \""@,
            run@,
            "\" -> \""@,
            id@,
            "\" [label=\"child\"];\n"@,
        ]);
    }
    joined(pieces)
}

impl Runtime {
    /// Returns accepted policy revisions attached to an operation.
    pub fn accepted_policies(&self, operation: Entity) -> (r: Result<
        Vec<AcceptedPolicyDebug>,
        RunDebugError,
    >)
        ensures
            match r {
                Ok(accepted) => is_live(self@.world, operation) && accepted.deep_view()
                    == accepted_of(self@.world, operation),
                Err(error) => !is_live(self@.world, operation) && error
                    == RunDebugError::StaleOperation,
            },
    {
        let world = &self.world;
        let live = world.stable_ids.contains(operation) || world.tenants.contains(operation)
            || world.runs.states.contains(operation) || world.runs.turns.contains(operation)
            || world.runs.subscriptions.contains(operation) || world.operations.states.contains(
            operation,
        ) || world.operations.batches.contains(operation) || world.controls.evaluations.contains(
            operation,
        );
        if !live {
            return Err(RunDebugError::StaleOperation);
        }
        let ghost all = accepted_by(world@, operation);
        let mut rows: Vec<(Vec<KeyPart>, AcceptedPolicyDebug)> = Vec::new();
        if let Some(accepted) = world.operations.accepted_policies.get(operation) {
            let mut i: usize = 0;
            while i < accepted.0.len()
                invariant
                    i <= accepted.0@.len(),
                    all == accepted@.0,
                    rows@.len() == i,
                    forall|k: int|
                        0 <= k < i ==> (#[trigger] rows@[k]).deep_view() == accepted_rank(all[k]),
                decreases accepted.0@.len() - i,
            {
                let policy = &accepted.0[i];
                assert(all[i as int] == policy@);
                let key = vec![
                    KeyPart::Number(policy.point.rank()),
                    KeyPart::Number(policy.order as u64),
                    KeyPart::Text(policy.id.text()),
                ];
                proof {
                    assert(key.deep_view() =~= seq![
                        KeyPartView::Number(point_rank(policy.point) as u64),
                        KeyPartView::Number(policy.order as u64),
                        KeyPartView::Text(policy.id@),
                    ]);
                }
                let row = AcceptedPolicyDebug {
                    id: policy.id.clone(),
                    revision: policy.revision,
                    order: policy.order,
                    point: policy.point,
                };
                rows.push((key, row));
                i = i + 1;
            }
        }
        assert(rows.deep_view() =~= Seq::new(all.len(), |i: int| accepted_rank(all[i])));
        Ok(sort_values(rows))
    }

    /// Returns retained operations for a run in stable-ID order.
    pub fn pending_effects(&self, run: RunHandle) -> (r: Result<
        Vec<PendingOperationDebug>,
        RunDebugError,
    >)
        ensures
            match r {
                Ok(operations) => inspection_fault(self@.world, self@.handle.runtime_id, run) is None
                    && operations.deep_view() == pending_of(self@.world, run.entity),
                Err(error) => inspection_fault(self@.world, self@.handle.runtime_id, run) == Some(
                    error,
                ),
            },
    {
        broadcast use crate::fold::group_fold;

        if let Err(error) = self.validate_debug_run(run) {
            return Err(error);
        }
        let ids = self.world.operations.operation_of.sources(run.entity);
        let ghost w = self@.world;
        let ghost pick = |e: Entity| operation_rank(w, e);
        let mut rows: Vec<(Vec<KeyPart>, PendingOperationDebug)> = Vec::new();
        assert(rows.deep_view() =~= Seq::empty());
        let mut i: usize = 0;
        while i < ids.len()
            invariant
                i <= ids@.len(),
                w == self@.world,
                pick == (|e: Entity| operation_rank(w, e)),
                rows.deep_view() == picked(ids@.take(i as int), pick),
            decreases ids@.len() - i,
        {
            proof {
                lemma_picked_next(ids@, i as int, pick);
            }
            if let Some(row) = describe_operation(&self.world, ids[i]) {
                let ghost before = rows.deep_view();
                let key = vec![KeyPart::Text(row.id.text())];
                assert(key.deep_view() =~= seq![KeyPartView::Text(row@.id)]);
                let ghost view = (key.deep_view(), row@);
                rows.push((key, row));
                assert(rows.deep_view() =~= before.push(view));
            }
            i = i + 1;
        }
        Ok(sort_values(rows))
    }

    /// Explains the current run, policy cursors, pending effects, and stall cause.
    pub fn explain_run(&self, run: RunHandle) -> (r: Result<RunExplanation, RunDebugError>)
        ensures
            (match r {
                Ok(explanation) => Ok::<RunExplanationView, RunDebugError>(explanation@),
                Err(error) => Err::<RunExplanationView, RunDebugError>(error),
            }) == (match inspection_fault(self@.world, self@.handle.runtime_id, run) {
                Some(error) => Err::<RunExplanationView, RunDebugError>(error),
                None => explained(self@.world, run.entity),
            }),
    {
        if let Err(error) = self.validate_debug_run(run) {
            return Err(error);
        }
        let world = &self.world;
        let run_id = match world.stable_ids.get(run.entity) {
            Some(id) => id.clone(),
            None => return Err(RunDebugError::StaleRun),
        };
        let tenant = match world.tenants.get(run.entity) {
            Some(tenant) => tenant.clone(),
            None => return Err(RunDebugError::StaleRun),
        };
        let agent = match world.runs.run_of.get(run.entity) {
            Some(agent) => *agent,
            None => return Err(RunDebugError::StaleRun),
        };
        let agent_id = match world.stable_ids.get(agent) {
            Some(id) => id.clone(),
            None => return Err(RunDebugError::StaleRun),
        };
        let state = match world.runs.states.get(run.entity) {
            Some(state) => run_state_form(state),
            None => return Err(RunDebugError::StaleRun),
        };
        let control = read_control(world, run.entity).text();
        let (next_turn, max_model_calls) = match world.runs.records.get(run.entity) {
            Some(record) => (record.next_turn, record.max_model_calls),
            None => return Err(RunDebugError::StaleRun),
        };
        let operations = match self.pending_effects(run) {
            Ok(operations) => operations,
            Err(error) => return Err(error),
        };
        let policy_evaluations = list_evaluations(world, run.entity);
        let stalled_reason = match self.stalled_reason(run) {
            Ok(reason) => reason,
            Err(error) => return Err(error),
        };
        Ok(
            RunExplanation {
                run_id,
                agent_id,
                tenant,
                state,
                control,
                next_turn,
                model_calls: next_turn,
                max_model_calls,
                operations,
                policy_evaluations,
                stalled_reason,
            },
        )
    }

    /// Explains why the run is not currently producing user-visible progress.
    pub fn stalled_reason(&self, run: RunHandle) -> (r: Result<StalledReason, RunDebugError>)
        ensures
            (match r {
                Ok(reason) => Ok::<StalledReasonView, RunDebugError>(reason@),
                Err(error) => Err::<StalledReasonView, RunDebugError>(error),
            }) == (match inspection_fault(self@.world, self@.handle.runtime_id, run) {
                Some(error) => Err::<StalledReasonView, RunDebugError>(error),
                None => stalled(self@.world, run.entity),
            }),
    {
        if let Err(error) = self.validate_debug_run(run) {
            return Err(error);
        }
        let world = &self.world;
        let control = read_control(world, run.entity);
        if control != RunControl::Running {
            return Ok(StalledReason::Paused(control.text()));
        }
        if world.controls.waiting_for_children.contains(run.entity) {
            let children = world.controls.parents.sources(run.entity);
            if children.len() > 0 {
                return Ok(StalledReason::WaitingForChildren(list_child_ids(world, run.entity)));
            }
        }
        match world.runs.states.get(run.entity) {
            None => Err(RunDebugError::StaleRun),
            Some(RunState::Queued) => Ok(StalledReason::Ready),
            Some(RunState::WaitingModel { operation }) | Some(
                RunState::WaitingStore { operation },
            ) => match describe_operation(world, *operation) {
                Some(row) => Ok(StalledReason::WaitingForEffect(row)),
                None => Err(RunDebugError::StaleOperation),
            },
            Some(RunState::WaitingTools { batch }) => match world.operations.batches.get(*batch) {
                Some(state) => Ok(
                    StalledReason::WaitingForToolBatch {
                        expected: state.expected,
                        settled: clamp(count_over(world, *batch)),
                    },
                ),
                None => Err(RunDebugError::StaleOperation),
            },
            Some(RunState::Completed(_)) => Ok(StalledReason::Terminal("completed".to_owned())),
            Some(RunState::Failed(_)) => Ok(StalledReason::Terminal("failed".to_owned())),
            Some(RunState::Cancelled) => Ok(StalledReason::Terminal("cancelled".to_owned())),
        }
    }

    /// Renders the retained run/operation/child topology as Graphviz DOT.
    pub fn dump_run_graph(&self, run: RunHandle) -> (r: Result<String, RunDebugError>)
        ensures
            (match r {
                Ok(graph) => Ok::<Seq<char>, RunDebugError>(graph@),
                Err(error) => Err::<Seq<char>, RunDebugError>(error),
            }) == (match inspection_fault(self@.world, self@.handle.runtime_id, run) {
                Some(error) => Err::<Seq<char>, RunDebugError>(error),
                None => match explained(self@.world, run.entity) {
                    Ok(explanation) => Ok::<Seq<char>, RunDebugError>(
                        graph_text(self@.world, run.entity, explanation),
                    ),
                    Err(error) => Err::<Seq<char>, RunDebugError>(error),
                },
            }),
    {
        let explanation = match self.explain_run(run) {
            Ok(explanation) => explanation,
            Err(error) => return Err(error),
        };
        let id = explanation.run_id.text();
        let mut graph = draw_run(id.as_str(), explanation.state.as_str());
        let ghost head = graph@;
        let ghost operations = explanation.operations.deep_view();
        let mut i: usize = 0;
        assert(head + operations_lines(id@, operations, 0) =~= head);
        while i < explanation.operations.len()
            invariant
                i <= explanation.operations@.len(),
                operations == explanation.operations.deep_view(),
                graph@ == head + operations_lines(id@, operations, i as int),
            decreases explanation.operations@.len() - i,
        {
            assert(operations[i as int] == explanation.operations@[i as int]@);
            let lines = draw_operation(id.as_str(), &explanation.operations[i]);
            let ghost before = graph@;
            graph.append(lines.as_str());
            assert(before + lines@ =~= head + (operations_lines(id@, operations, i as int)
                + lines@));
            i = i + 1;
        }
        let children = list_children(&self.world, run.entity);
        let ghost body = graph@;
        let ghost rows = children.deep_view();
        let mut j: usize = 0;
        assert(body + children_lines(id@, rows, 0) =~= body);
        while j < children.len()
            invariant
                j <= children@.len(),
                rows == children.deep_view(),
                graph@ == body + children_lines(id@, rows, j as int),
            decreases children@.len() - j,
        {
            assert(rows[j as int] == (children@[j as int].0@, children@[j as int].1@));
            let lines = draw_child(id.as_str(), children[j].0.as_str(), children[j].1.as_str());
            let ghost before = graph@;
            graph.append(lines.as_str());
            assert(before + lines@ =~= body + (children_lines(id@, rows, j as int) + lines@));
            j = j + 1;
        }
        graph.append("}\n");
        Ok(graph)
    }

    fn validate_debug_run(&self, run: RunHandle) -> (r: Result<(), RunDebugError>)
        ensures
            match r {
                Ok(_) => inspection_fault(self@.world, self@.handle.runtime_id, run) is None,
                Err(error) => inspection_fault(self@.world, self@.handle.runtime_id, run) == Some(
                    error,
                ),
            },
    {
        if run.runtime_id != self.handle.runtime_id {
            return Err(RunDebugError::ForeignRuntime);
        }
        if !self.world.runs.states.contains(run.entity) {
            return Err(RunDebugError::StaleRun);
        }
        Ok(())
    }
}

} // verus!
