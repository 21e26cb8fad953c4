//! Policy points, rules and installation.

use vstd::prelude::*;

use crate::capability::{
    AcceptedPolicy, AcceptedPolicyView, ModelToolChoice, Policy, PolicyPoint, PolicyRule,
    PolicyRuleView, PolicyView, RequestPatch, RequestPatchView, RetrievedDocument,
};
use crate::column::Entity;
use crate::effect::TranscriptEntry;
use crate::identity::{IdentityError, StableId, TenantId};
use crate::runtime::id_taken;
use crate::text::{blank, is_blank};
use crate::world::{DomainView, World, WorldView};

verus! {

/// Position of a point in the order of points.
pub open spec fn point_rank(point: PolicyPoint) -> int {
    match point {
        PolicyPoint::Request => 0,
        PolicyPoint::ToolCall => 1,
        PolicyPoint::InvalidToolCall => 2,
        PolicyPoint::ToolResult => 3,
        PolicyPoint::CompletionResponse => 4,
        PolicyPoint::TextDelta => 5,
        PolicyPoint::ToolCallDelta => 6,
    }
}

/// Name of a point.
pub open spec fn point_text(point: PolicyPoint) -> Seq<char> {
    match point {
        PolicyPoint::Request => "request"@,
        PolicyPoint::ToolCall => "tool-call"@,
        PolicyPoint::InvalidToolCall => "invalid-tool-call"@,
        PolicyPoint::ToolResult => "tool-result"@,
        PolicyPoint::CompletionResponse => "completion-response"@,
        PolicyPoint::TextDelta => "text-delta"@,
        PolicyPoint::ToolCallDelta => "tool-call-delta"@,
    }
}

impl PolicyPoint {
    /// Position of the point in the order of points.
    pub fn rank(self) -> (r: u64)
        ensures
            r == point_rank(self),
    {
        match self {
            PolicyPoint::Request => 0,
            PolicyPoint::ToolCall => 1,
            PolicyPoint::InvalidToolCall => 2,
            PolicyPoint::ToolResult => 3,
            PolicyPoint::CompletionResponse => 4,
            PolicyPoint::TextDelta => 5,
            PolicyPoint::ToolCallDelta => 6,
        }
    }

    /// Name of the point.
    pub fn as_str(self) -> (r: &'static str)
        ensures
            r@ == point_text(self),
    {
        match self {
            PolicyPoint::Request => "request",
            PolicyPoint::ToolCall => "tool-call",
            PolicyPoint::InvalidToolCall => "invalid-tool-call",
            PolicyPoint::ToolResult => "tool-result",
            PolicyPoint::CompletionResponse => "completion-response",
            PolicyPoint::TextDelta => "text-delta",
            PolicyPoint::ToolCallDelta => "tool-call-delta",
        }
    }
}

/// The point that a rule governs.
pub open spec fn rule_point(rule: PolicyRuleView) -> PolicyPoint {
    match rule {
        PolicyRuleView::Allow => PolicyPoint::Request,
        PolicyRuleView::DenyPromptContains(_) => PolicyPoint::Request,
        PolicyRuleView::PatchRequest(_) => PolicyPoint::Request,
        PolicyRuleView::RewriteToolArguments { .. } => PolicyPoint::ToolCall,
        PolicyRuleView::SkipToolCall { .. } => PolicyPoint::ToolCall,
        PolicyRuleView::RepairInvalidTool { .. } => PolicyPoint::InvalidToolCall,
        PolicyRuleView::RetryInvalidTool { .. } => PolicyPoint::InvalidToolCall,
        PolicyRuleView::SkipInvalidTool { .. } => PolicyPoint::InvalidToolCall,
        PolicyRuleView::RewriteToolResult { .. } => PolicyPoint::ToolResult,
        PolicyRuleView::StopToolResult { .. } => PolicyPoint::ToolResult,
        PolicyRuleView::RewriteCompletionText { .. } => PolicyPoint::CompletionResponse,
        PolicyRuleView::StopCompletionContains { .. } => PolicyPoint::CompletionResponse,
        PolicyRuleView::StopTextDeltaContains { .. } => PolicyPoint::TextDelta,
        PolicyRuleView::StopToolCallDeltaContains { .. } => PolicyPoint::ToolCallDelta,
        PolicyRuleView::RequireApproval { point, .. } => point,
        PolicyRuleView::Custom(point) => point,
    }
}

impl PolicyRule {
    /// The point that the rule governs.
    pub fn point(&self) -> (r: PolicyPoint)
        ensures
            r == rule_point(self@),
    {
        match self {
            PolicyRule::Allow | PolicyRule::DenyPromptContains(_) | PolicyRule::PatchRequest(_) =>
                PolicyPoint::Request,
            PolicyRule::RewriteToolArguments { .. } | PolicyRule::SkipToolCall { .. } =>
                PolicyPoint::ToolCall,
            PolicyRule::RepairInvalidTool { .. } | PolicyRule::RetryInvalidTool { .. }
            | PolicyRule::SkipInvalidTool { .. } => PolicyPoint::InvalidToolCall,
            PolicyRule::RewriteToolResult { .. } | PolicyRule::StopToolResult { .. } =>
                PolicyPoint::ToolResult,
            PolicyRule::RewriteCompletionText { .. } | PolicyRule::StopCompletionContains { .. } =>
                PolicyPoint::CompletionResponse,
            PolicyRule::StopTextDeltaContains { .. } => PolicyPoint::TextDelta,
            PolicyRule::StopToolCallDeltaContains { .. } => PolicyPoint::ToolCallDelta,
            PolicyRule::RequireApproval { point, .. } => *point,
            PolicyRule::Custom(point) => *point,
        }
    }
}

/// Authoritative ordering and revision facts of a policy.
#[derive(Clone, Copy, Debug, PartialEq, Eq, Structural)]
pub struct PolicyMeta {
    /// Explicit composition order. Stable ID breaks ties.
    pub order: u32,
    /// Immutable policy revision recorded by accepted decisions.
    pub revision: u64,
}

/// Admission status for a policy revision.
#[derive(Clone, Copy, Debug, PartialEq, Eq, Structural)]
pub enum PolicyStatus {
    /// Eligible for future policy snapshots.
    Enabled,
    /// Excluded from future snapshots but retained for accepted evaluations.
    Retired,
}

impl View for PolicyStatus {
    type V = Self;

    open spec fn view(&self) -> Self {
        *self
    }
}

impl DeepView for PolicyStatus {
    type V = Self;

    open spec fn deep_view(&self) -> Self {
        self.view()
    }
}

impl Default for PolicyStatus {
    fn default() -> (r: Self)
        ensures
            r == PolicyStatus::Enabled,
    {
        PolicyStatus::Enabled
    }
}

/// Whether a policy with an admission status takes part in new evaluations.
pub open spec fn accepts_new(status: Option<PolicyStatus>) -> bool {
    status != Some(PolicyStatus::Retired)
}

/// Whether a policy with an admission status takes part in new evaluations.
pub fn accepts_new_policy_evaluations(status: Option<PolicyStatus>) -> (r: bool)
    ensures
        r == accepts_new(status),
{
    match status {
        Some(PolicyStatus::Retired) => false,
        _ => true,
    }
}

/// Stable identity used to reconstruct an extension-owned responder binding.
#[derive(Debug, PartialEq, Eq, Hash)]
pub struct PolicyResponderId(String);

impl View for PolicyResponderId {
    type V = Seq<char>;

    closed spec fn view(&self) -> Seq<char> {
        self.0@
    }
}

impl Clone for PolicyResponderId {
    fn clone(&self) -> (r: Self)
        ensures
            r@ == self@,
    {
        PolicyResponderId(self.0.clone())
    }
}

impl PolicyResponderId {
    /// An identity that the runtime makes up itself.
    pub fn generated(value: String) -> (r: Self)
        requires
            value@.len() > 0,
        ensures
            r@ == value@,
    {
        PolicyResponderId(value)
    }

    /// Creates a stable responder-binding identity.
    pub fn new(value: String) -> (r: Result<Self, IdentityError>)
        ensures
            match r {
                Ok(id) => !is_blank(value@) && id@ == value@,
                Err(error) => is_blank(value@) && error == IdentityError::Empty,
            },
    {
        if blank(value.as_str()) {
            return Err(IdentityError::Empty);
        }
        Ok(PolicyResponderId(value))
    }

    /// Returns the serialized binding identity.
    pub fn as_str(&self) -> (r: &str)
        ensures
            r@ == self@,
    {
        self.0.as_str()
    }
}

/// Whether points stand in ascending order, each once.
pub open spec fn ascending_points(points: Seq<PolicyPoint>) -> bool {
    forall|i: int, j: int|
        0 <= i < j < points.len() ==> point_rank(#[trigger] points[i]) < point_rank(
            #[trigger] points[j],
        )
}

/// Lifecycle capabilities of a policy: a set of points in ascending order.
#[derive(Debug, PartialEq, Eq)]
pub struct PolicyCapabilities(Vec<PolicyPoint>);

impl View for PolicyCapabilities {
    type V = Seq<PolicyPoint>;

    closed spec fn view(&self) -> Seq<PolicyPoint> {
        self.0@
    }
}

impl Default for PolicyCapabilities {
    fn default() -> (r: Self)
        ensures
            r@ == Seq::<PolicyPoint>::empty(),
    {
        PolicyCapabilities(Vec::new())
    }
}

impl Clone for PolicyCapabilities {
    fn clone(&self) -> (r: Self)
        ensures
            r@ == self@,
    {
        proof {
            use_type_invariant(self);
        }
        let points = self.0.clone();
        assert(points@ =~= self.0@);
        PolicyCapabilities(points)
    }
}

impl PolicyCapabilities {
    #[verifier::type_invariant]
    closed spec fn well_formed(&self) -> bool {
        ascending_points(self.0@)
    }

    /// Creates a deterministic, duplicate-free capability set.
    pub fn new(points: Vec<PolicyPoint>) -> (r: Self)
        ensures
            ascending_points(r@),
            forall|point: PolicyPoint| r@.contains(point) <==> points@.contains(point),
    {
        let mut kept: Vec<PolicyPoint> = Vec::new();
        let mut i: usize = 0;
        while i < points.len()
            invariant
                i <= points@.len(),
                ascending_points(kept@),
                forall|point: PolicyPoint|
                    kept@.contains(point) <==> points@.take(i as int).contains(point),
            decreases points@.len() - i,
        {
            let ghost before = kept@;
            insert_point(&mut kept, points[i]);
            proof {
                let upto = points@.take(i as int);
                let next = points@.take(i + 1);
                assert(next =~= upto.push(points@[i as int]));
                assert forall|point: PolicyPoint| kept@.contains(point) <==> next.contains(
                    point,
                ) by {
                    lemma_push_contains(upto, points@[i as int], point);
                }
            }
            i = i + 1;
        }
        assert(points@.take(i as int) =~= points@);
        PolicyCapabilities(kept)
    }

    /// Returns whether this policy participates at a point.
    pub fn contains(&self, point: PolicyPoint) -> (r: bool)
        ensures
            r == self@.contains(point),
    {
        proof {
            use_type_invariant(self);
        }
        let mut low: usize = 0;
        let mut high: usize = self.0.len();
        while low < high
            invariant
                low <= high <= self.0@.len(),
                ascending_points(self.0@),
                forall|k: int|
                    0 <= k < self.0@.len() && self.0@[k] == point ==> low <= k < high,
            decreases high - low,
        {
            let middle: usize = low + (high - low) / 2;
            let found: u64 = self.0[middle].rank();
            let wanted: u64 = point.rank();
            if found == wanted {
                proof {
                    lemma_rank_injective(self.0@[middle as int], point);
                    assert(self.0@[middle as int] == point);
                }
                return true;
            }
            if found < wanted {
                low = middle + 1;
            } else {
                high = middle;
            }
        }
        false
    }

    /// Borrows the deterministic lifecycle-point set.
    pub fn points(&self) -> (r: &Vec<PolicyPoint>)
        ensures
            r@ == self@,
            ascending_points(r@),
    {
        proof {
            use_type_invariant(self);
        }
        &self.0
    }
}

proof fn lemma_rank_injective(a: PolicyPoint, b: PolicyPoint)
    ensures
        point_rank(a) == point_rank(b) ==> a == b,
{
}

proof fn lemma_push_contains<A>(items: Seq<A>, item: A, wanted: A)
    ensures
        items.push(item).contains(wanted) <==> items.contains(wanted) || wanted == item,
{
    if items.contains(wanted) {
        let k = choose|k: int| 0 <= k < items.len() && items[k] == wanted;
        assert(items.push(item)[k] == wanted);
    }
    assert(items.push(item)[items.len() as int] == item);
    if items.push(item).contains(wanted) && wanted != item {
        let k = choose|k: int| 0 <= k < items.push(item).len() && items.push(item)[k] == wanted;
        assert(items[k] == wanted);
    }
}

fn insert_point(points: &mut Vec<PolicyPoint>, point: PolicyPoint)
    requires
        ascending_points(old(points)@),
    ensures
        ascending_points(final(points)@),
        forall|p: PolicyPoint|
            final(points)@.contains(p) <==> old(points)@.contains(p) || p == point,
{
    let ghost before = points@;
    let mut i: usize = 0;
    while i < points.len() && points[i].rank() < point.rank()
        invariant
            i <= points@.len(),
            points@ == before,
            forall|k: int| 0 <= k < i ==> point_rank(#[trigger] points@[k]) < point_rank(point),
        decreases points@.len() - i,
    {
        i = i + 1;
    }
    if i < points.len() && points[i].rank() == point.rank() {
        proof {
            lemma_rank_injective(before[i as int], point);
            assert(before.contains(point));
        }
        return;
    }
    points.insert(i, point);
    proof {
        let after = points@;
        assert(after =~= before.insert(i as int, point));
        assert forall|a: int, b: int| 0 <= a < b < after.len() implies point_rank(
            #[trigger] after[a],
        ) < point_rank(#[trigger] after[b]) by {
            if b < i {
                assert(after[a] == before[a] && after[b] == before[b]);
            } else if b == i {
                assert(after[a] == before[a]);
            } else if a < i {
                assert(after[a] == before[a] && after[b] == before[b - 1]);
                assert(point_rank(before[a]) < point_rank(before[b - 1]));
            } else if a == i {
                assert(after[b] == before[b - 1]);
                if b - 1 > i {
                    assert(point_rank(before[i as int]) < point_rank(before[b - 1]));
                }
            } else {
                assert(after[a] == before[a - 1] && after[b] == before[b - 1]);
                assert(point_rank(before[a - 1]) < point_rank(before[b - 1]));
            }
        }
        assert forall|p: PolicyPoint| after.contains(p) <==> before.contains(p) || p == point by {
            if before.contains(p) {
                let k = choose|k: int| 0 <= k < before.len() && before[k] == p;
                if k < i {
                    assert(after[k] == p);
                } else {
                    assert(after[k + 1] == p);
                }
            }
            assert(after[i as int] == point);
            if after.contains(p) && p != point {
                let k = choose|k: int| 0 <= k < after.len() && after[k] == p;
                if k < i {
                    assert(before[k] == p);
                } else {
                    assert(before[k - 1] == p);
                }
            }
        }
    }
}

/// Two capability sets with the same points are the same, whatever order and number they were
/// given in.
pub proof fn law_capabilities_are_canonical(a: Seq<PolicyPoint>, b: Seq<PolicyPoint>)
    requires
        ascending_points(a),
        ascending_points(b),
        forall|point: PolicyPoint| a.contains(point) <==> b.contains(point),
    ensures
        a == b,
    decreases a.len(),
{
    if a.len() == 0 {
        if b.len() > 0 {
            assert(b.contains(b[0]));
            assert(a.contains(b[0]));
        }
    } else {
        assert(a.contains(a.last()));
        assert(b.contains(a.last()));
        let k = choose|k: int| 0 <= k < b.len() && b[k] == a.last();
        assert(b.contains(b.last()));
        assert(a.contains(b.last()));
        let m = choose|m: int| 0 <= m < a.len() && a[m] == b.last();
        if k < b.len() - 1 {
            assert(point_rank(b[k]) < point_rank(b[b.len() - 1]));
            if m < a.len() - 1 {
                assert(point_rank(a[m]) < point_rank(a[a.len() - 1]));
            }
        }
        assert(a.last() == b.last());
        let a0 = a.drop_last();
        let b0 = b.drop_last();
        assert forall|point: PolicyPoint| a0.contains(point) <==> b0.contains(point) by {
            lemma_push_contains(a0, a.last(), point);
            lemma_push_contains(b0, b.last(), point);
            assert(a0.push(a.last()) =~= a);
            assert(b0.push(b.last()) =~= b);
            if a0.contains(point) {
                let i = choose|i: int| 0 <= i < a0.len() && a0[i] == point;
                assert(point_rank(a[i]) < point_rank(a[a.len() - 1]));
            }
            if b0.contains(point) {
                let i = choose|i: int| 0 <= i < b0.len() && b0[i] == point;
                assert(point_rank(b[i]) < point_rank(b[b.len() - 1]));
            }
        }
        assert forall|i: int, j: int| 0 <= i < j < a0.len() implies point_rank(#[trigger] a0[i])
            < point_rank(#[trigger] a0[j]) by {
            assert(point_rank(a[i]) < point_rank(a[j]));
        }
        assert forall|i: int, j: int| 0 <= i < j < b0.len() implies point_rank(#[trigger] b0[i])
            < point_rank(#[trigger] b0[j]) by {
            assert(point_rank(b[i]) < point_rank(b[j]));
        }
        law_capabilities_are_canonical(a0, b0);
        assert(a =~= a0.push(a.last()));
        assert(b =~= b0.push(b.last()));
    }
}

impl RequestPatchView {
    /// A patch that changes nothing.
    pub open spec fn nothing() -> RequestPatchView {
        RequestPatchView {
            instructions: None,
            temperature_bits: None,
            max_tokens: None,
            tool_choice: None,
            active_tools: None,
            additional_params: None,
            extra_context: Seq::empty(),
            history: None,
        }
    }
}

impl Default for RequestPatch {
    fn default() -> (r: Self)
        ensures
            r@ == RequestPatchView::nothing(),
    {
        let r = RequestPatch {
            instructions: None,
            temperature_bits: None,
            max_tokens: None,
            tool_choice: None,
            active_tools: None,
            additional_params: None,
            extra_context: Vec::new(),
            history: None,
        };
        assert(r.extra_context.deep_view() =~= Seq::empty());
        r
    }
}

impl RequestPatch {
    /// Creates an empty patch.
    pub fn new() -> (r: Self)
        ensures
            r@ == RequestPatchView::nothing(),
    {
        RequestPatch::default()
    }

    /// Replaces instructions for this operation.
    pub fn instructions(self, value: String) -> (r: Self)
        ensures
            r@ == (RequestPatchView { instructions: Some(value@), ..self@ }),
    {
        let mut r = self;
        r.instructions = Some(value);
        r
    }

    /// Sets the sampling temperature for this operation, by its bits.
    pub fn temperature_bits(self, bits: u64) -> (r: Self)
        ensures
            r@ == (RequestPatchView { temperature_bits: Some(bits), ..self@ }),
    {
        let mut r = self;
        r.temperature_bits = Some(bits);
        r
    }

    /// Sets the output-token limit for this operation.
    pub fn max_tokens(self, value: u64) -> (r: Self)
        ensures
            r@ == (RequestPatchView { max_tokens: Some(value), ..self@ }),
    {
        let mut r = self;
        r.max_tokens = Some(value);
        r
    }

    /// Replaces the tool-selection behaviour for this operation.
    pub fn tool_choice(self, value: ModelToolChoice) -> (r: Self)
        ensures
            r@ == (RequestPatchView { tool_choice: Some(value@), ..self@ }),
    {
        let mut r = self;
        r.tool_choice = Some(value);
        r
    }

    /// Narrows the tools advertised for this operation.
    pub fn active_tools(self, values: Vec<String>) -> (r: Self)
        ensures
            r@ == (RequestPatchView { active_tools: Some(values.deep_view()), ..self@ }),
    {
        let mut r = self;
        r.active_tools = Some(values);
        r
    }

    /// Applies provider-specific request parameters.
    pub fn additional_params(self, value: serde_json::Value) -> (r: Self)
        ensures
            r@ == (RequestPatchView { additional_params: Some(value), ..self@ }),
    {
        let mut r = self;
        r.additional_params = Some(value);
        r
    }

    /// Appends request-local context documents.
    pub fn extra_context(self, values: Vec<RetrievedDocument>) -> (r: Self)
        ensures
            r@ == (RequestPatchView {
                extra_context: self@.extra_context + values.deep_view(),
                ..self@
            }),
    {
        let mut r = self;
        let mut values = values;
        let ghost before = r.extra_context.deep_view();
        let ghost more = values.deep_view();
        r.extra_context.append(&mut values);
        assert(r.extra_context.deep_view() =~= before + more);
        r
    }

    /// Replaces canonical prior history while retaining the current prompt.
    pub fn history(self, values: Vec<TranscriptEntry>) -> (r: Self)
        ensures
            r@ == (RequestPatchView { history: Some(values.deep_view()), ..self@ }),
    {
        let mut r = self;
        r.history = Some(values);
        r
    }
}

/// Extension installation failure that leaves the existing world unchanged.
#[derive(Debug, PartialEq, Eq)]
pub enum ExtensionInstallError {
    /// No runtime was installed into the world.
    RuntimeNotInstalled,
    /// The policy stable identity already exists.
    DuplicateStableId(String),
    /// The target is not a live agent entity.
    StaleAgent(Entity),
    /// Policy and agent tenant scopes differ.
    TenantMismatch,
}

/// What an [`ExtensionInstallError`] holds.
#[verifier::ext_equal]
pub enum ExtensionInstallErrorView {
    RuntimeNotInstalled,
    DuplicateStableId(Seq<char>),
    StaleAgent(Entity),
    TenantMismatch,
}

impl View for ExtensionInstallError {
    type V = ExtensionInstallErrorView;

    open spec fn view(&self) -> ExtensionInstallErrorView {
        match self {
            ExtensionInstallError::RuntimeNotInstalled =>
                ExtensionInstallErrorView::RuntimeNotInstalled,
            ExtensionInstallError::DuplicateStableId(id) =>
                ExtensionInstallErrorView::DuplicateStableId(id@),
            ExtensionInstallError::StaleAgent(agent) => ExtensionInstallErrorView::StaleAgent(
                *agent,
            ),
            ExtensionInstallError::TenantMismatch => ExtensionInstallErrorView::TenantMismatch,
        }
    }
}

/// Thin installer for extensions.
pub trait RigExtension {
    /// Installs what the extension consists of.
    fn install(&self, world: &mut World) -> Result<(), ExtensionInstallError>;
}

/// The bundle of an enabled policy.
pub open spec fn bundle_of(
    id: Seq<char>,
    tenant: Seq<char>,
    agent: Entity,
    order: u32,
    revision: u64,
    rule: PolicyRuleView,
) -> PolicyEntityBundleView {
    PolicyEntityBundleView {
        id,
        tenant,
        policy: PolicyView { order, revision, rule },
        status: PolicyStatus::Enabled,
        policy_for: agent,
    }
}

/// Why a policy cannot be installed, if it cannot.
pub open spec fn policy_install_fault(w: WorldView, bundle: PolicyEntityBundleView) -> Option<
    ExtensionInstallErrorView,
> {
    if w.resources.runtime is None {
        Some(ExtensionInstallErrorView::RuntimeNotInstalled)
    } else if id_taken(w, bundle.id) {
        Some(ExtensionInstallErrorView::DuplicateStableId(bundle.id))
    } else if !w.tenants.contains_key(bundle.policy_for) || !w.domain.agents.contains_key(
        bundle.policy_for,
    ) {
        Some(ExtensionInstallErrorView::StaleAgent(bundle.policy_for))
    } else if w.tenants[bundle.policy_for] != bundle.tenant {
        Some(ExtensionInstallErrorView::TenantMismatch)
    } else {
        None
    }
}

/// The world with an installed policy.
pub open spec fn with_installed_policy(w: WorldView, bundle: PolicyEntityBundleView) -> WorldView {
    let next = w.with_policy(bundle.id, bundle.tenant, bundle.policy, bundle.policy_for);
    WorldView {
        domain: DomainView {
            policy_status: next.domain.policy_status.insert(w.fresh(), bundle.status),
            ..next.domain
        },
        ..next
    }
}

/// Whether an installation did what it is to do: the policy is in the world, or the world is as it
/// was.
pub open spec fn installs(
    before: WorldView,
    after: WorldView,
    bundle: PolicyEntityBundleView,
    r: Result<(), ExtensionInstallError>,
) -> bool {
    match r {
        Ok(_) => {
            &&& policy_install_fault(before, bundle) is None
            &&& after == with_installed_policy(before, bundle)
        },
        Err(error) => {
            &&& policy_install_fault(before, bundle) == Some(error@)
            &&& after == before
        },
    }
}

/// Installs a policy; a policy that cannot be installed leaves the world as it was.
pub fn install_policy_extension(world: &mut World, bundle: PolicyEntityBundle) -> (r: Result<
    (),
    ExtensionInstallError,
>)
    ensures
        installs(old(world)@, final(world)@, bundle@, r),
{
    if world.resources.runtime.is_none() {
        return Err(ExtensionInstallError::RuntimeNotInstalled);
    }
    if crate::runtime::has_id(world, &bundle.id) {
        return Err(ExtensionInstallError::DuplicateStableId(bundle.id.text()));
    }
    let same = match world.tenants.get(bundle.policy_for) {
        Some(tenant) => tenant.same(&bundle.tenant),
        None => return Err(ExtensionInstallError::StaleAgent(bundle.policy_for)),
    };
    if !world.domain.agents.contains(bundle.policy_for) {
        return Err(ExtensionInstallError::StaleAgent(bundle.policy_for));
    }
    if !same {
        return Err(ExtensionInstallError::TenantMismatch);
    }
    let status = bundle.status;
    let e = world.spawn_policy(bundle.id, bundle.tenant, bundle.policy, bundle.policy_for);
    world.domain.policy_status.insert(e, status);
    Ok(())
}

impl PolicyEntityBundle {
    fn new(
        id: StableId,
        tenant: TenantId,
        agent: Entity,
        order: u32,
        revision: u64,
        rule: PolicyRule,
    ) -> (r: Self)
        ensures
            r@ == bundle_of(id@, tenant@, agent, order, revision, rule@),
    {
        PolicyEntityBundle {
            id,
            tenant,
            policy: Policy { order, revision, rule },
            status: PolicyStatus::Enabled,
            policy_for: agent,
        }
    }
}

impl RunPolicySpec {
    /// Creates a run-local policy specification.
    pub fn new(id: StableId, policy: Policy) -> (r: Self)
        ensures
            r@ == (RunPolicySpecView { id: id@, policy: policy@ }),
    {
        RunPolicySpec { id, policy }
    }
}

/// Authoritative phase of a policy evaluation.
#[derive(Debug, PartialEq, Eq)]
pub enum PolicyEvaluationPhase {
    /// The policy at the cursor is ready to be invoked.
    Evaluating,
    /// Waiting for a correlated approval operation.
    WaitingApproval {
        /// Approval operation.
        operation: Entity,
        /// Policy that asked for approval.
        policy: StableId,
    },
    /// Every snapshotted policy accepted.
    Accepted,
    /// Execution is skipped with synthetic feedback.
    Skipped(String),
    /// An invalid call was resolved to a real or synthetic result.
    Resolved,
    /// No policy resolved an invalid call or one explicitly failed it.
    Failed,
    /// A delta was published once.
    Published,
    /// A policy stopped the run.
    Rejected {
        /// Policy that stopped the run.
        policy: StableId,
        /// Why it did.
        reason: String,
    },
}

/// What a [`PolicyEvaluationPhase`] holds.
#[verifier::ext_equal]
pub enum PolicyEvaluationPhaseView {
    Evaluating,
    WaitingApproval { operation: Entity, policy: Seq<char> },
    Accepted,
    Skipped(Seq<char>),
    Resolved,
    Failed,
    Published,
    Rejected { policy: Seq<char>, reason: Seq<char> },
}

impl View for PolicyEvaluationPhase {
    type V = PolicyEvaluationPhaseView;

    open spec fn view(&self) -> PolicyEvaluationPhaseView {
        match self {
            PolicyEvaluationPhase::Evaluating => PolicyEvaluationPhaseView::Evaluating,
            PolicyEvaluationPhase::WaitingApproval { operation, policy } => PolicyEvaluationPhaseView::WaitingApproval {
                operation: *operation,
                policy: policy@,
            },
            PolicyEvaluationPhase::Accepted => PolicyEvaluationPhaseView::Accepted,
            PolicyEvaluationPhase::Skipped(x) => PolicyEvaluationPhaseView::Skipped(x@),
            PolicyEvaluationPhase::Resolved => PolicyEvaluationPhaseView::Resolved,
            PolicyEvaluationPhase::Failed => PolicyEvaluationPhaseView::Failed,
            PolicyEvaluationPhase::Published => PolicyEvaluationPhaseView::Published,
            PolicyEvaluationPhase::Rejected { policy, reason } => PolicyEvaluationPhaseView::Rejected {
                policy: policy@,
                reason: reason@,
            },
        }
    }
}

impl DeepView for PolicyEvaluationPhase {
    type V = PolicyEvaluationPhaseView;

    open spec fn deep_view(&self) -> PolicyEvaluationPhaseView {
        self.view()
    }
}

impl Clone for PolicyEvaluationPhase {
    fn clone(&self) -> (r: Self)
        ensures
            r@ == self@,
    {
        match self {
            PolicyEvaluationPhase::Evaluating => PolicyEvaluationPhase::Evaluating,
            PolicyEvaluationPhase::WaitingApproval { operation, policy } => PolicyEvaluationPhase::WaitingApproval {
                operation: *operation,
                policy: policy.clone(),
            },
            PolicyEvaluationPhase::Accepted => PolicyEvaluationPhase::Accepted,
            PolicyEvaluationPhase::Skipped(x) => PolicyEvaluationPhase::Skipped(x.clone()),
            PolicyEvaluationPhase::Resolved => PolicyEvaluationPhase::Resolved,
            PolicyEvaluationPhase::Failed => PolicyEvaluationPhase::Failed,
            PolicyEvaluationPhase::Published => PolicyEvaluationPhase::Published,
            PolicyEvaluationPhase::Rejected { policy, reason } => PolicyEvaluationPhase::Rejected {
                policy: policy.clone(),
                reason: reason.clone(),
            },
        }
    }
}

/// Durable ordered policy state of one operation.
#[derive(Debug, PartialEq, Eq)]
pub struct PolicyEvaluation {
    /// Lifecycle point under evaluation.
    pub point: PolicyPoint,
    /// Deterministically sorted immutable policy snapshot.
    pub policies: Vec<AcceptedPolicy>,
    /// Index of the next policy to invoke.
    pub cursor: usize,
    /// Authoritative evaluation phase.
    pub phase: PolicyEvaluationPhase,
}

/// What a [`PolicyEvaluation`] holds.
#[verifier::ext_equal]
pub struct PolicyEvaluationView {
    pub point: PolicyPoint,
    pub policies: Seq<AcceptedPolicyView>,
    pub cursor: usize,
    pub phase: PolicyEvaluationPhaseView,
}

impl View for PolicyEvaluation {
    type V = PolicyEvaluationView;

    open spec fn view(&self) -> PolicyEvaluationView {
        PolicyEvaluationView {
            point: self.point,
            policies: self.policies.deep_view(),
            cursor: self.cursor,
            phase: self.phase@,
        }
    }
}

impl DeepView for PolicyEvaluation {
    type V = PolicyEvaluationView;

    open spec fn deep_view(&self) -> PolicyEvaluationView {
        self.view()
    }
}

impl Clone for PolicyEvaluation {
    fn clone(&self) -> (r: Self)
        ensures
            r@ == self@,
    {
        let r = PolicyEvaluation {
            point: self.point,
            policies: self.policies.clone(),
            cursor: self.cursor,
            phase: self.phase.clone(),
        };
        assert(r.policies.deep_view() =~= self.policies.deep_view());
        r
    }
}

/// What every policy entity carries.
#[derive(Debug, PartialEq, Eq)]
pub struct PolicyEntityBundle {
    /// Persistent policy identity.
    pub id: StableId,
    /// Tenant boundary shared with the governed agent.
    pub tenant: TenantId,
    /// Immutable ordered policy data.
    pub policy: Policy,
    /// Admission state for future evaluations.
    pub status: PolicyStatus,
    /// Agent governed by this policy entity.
    pub policy_for: Entity,
}

/// What a [`PolicyEntityBundle`] holds.
#[verifier::ext_equal]
pub struct PolicyEntityBundleView {
    pub id: Seq<char>,
    pub tenant: Seq<char>,
    pub policy: PolicyView,
    pub status: PolicyStatus,
    pub policy_for: Entity,
}

impl View for PolicyEntityBundle {
    type V = PolicyEntityBundleView;

    open spec fn view(&self) -> PolicyEntityBundleView {
        PolicyEntityBundleView {
            id: self.id@,
            tenant: self.tenant@,
            policy: self.policy@,
            status: self.status,
            policy_for: self.policy_for,
        }
    }
}

impl DeepView for PolicyEntityBundle {
    type V = PolicyEntityBundleView;

    open spec fn deep_view(&self) -> PolicyEntityBundleView {
        self.view()
    }
}

impl Clone for PolicyEntityBundle {
    fn clone(&self) -> (r: Self)
        ensures
            r@ == self@,
    {
        PolicyEntityBundle {
            id: self.id.clone(),
            tenant: self.tenant.clone(),
            policy: self.policy.clone(),
            status: self.status,
            policy_for: self.policy_for,
        }
    }
}

/// Policy definition installed atomically with one newly admitted run.
#[derive(Debug, PartialEq, Eq)]
pub struct RunPolicySpec {
    /// Persistent identity unique within the runtime world.
    pub id: StableId,
    /// Immutable ordered policy definition.
    pub policy: Policy,
}

/// What a [`RunPolicySpec`] holds.
#[verifier::ext_equal]
pub struct RunPolicySpecView {
    pub id: Seq<char>,
    pub policy: PolicyView,
}

impl View for RunPolicySpec {
    type V = RunPolicySpecView;

    open spec fn view(&self) -> RunPolicySpecView {
        RunPolicySpecView {
            id: self.id@,
            policy: self.policy@,
        }
    }
}

impl DeepView for RunPolicySpec {
    type V = RunPolicySpecView;

    open spec fn deep_view(&self) -> RunPolicySpecView {
        self.view()
    }
}

impl Clone for RunPolicySpec {
    fn clone(&self) -> (r: Self)
        ensures
            r@ == self@,
    {
        RunPolicySpec {
            id: self.id.clone(),
            policy: self.policy.clone(),
        }
    }
}

/// An ordered, non-sticky completion-request patch policy.
#[derive(Debug)]
pub struct RequestPatchPolicyBundle {
    /// What the policy entity carries.
    pub policy: PolicyEntityBundle,
}

impl RequestPatchPolicyBundle {
    /// Creates the policy for an agent.
    pub fn new(
        id: StableId,
        tenant: TenantId,
        agent: Entity,
        order: u32,
        revision: u64,
        patch: RequestPatch,
    ) -> (r: Self)
        ensures
            r.policy@ == bundle_of(
                id@,
                tenant@,
                agent,
                order,
                revision,
                (PolicyRuleView::PatchRequest(patch@)),
            ),
    {
        RequestPatchPolicyBundle {
            policy: PolicyEntityBundle::new(
                id,
                tenant,
                agent,
                order,
                revision,
                PolicyRule::PatchRequest(patch),
            ),
        }
    }
}

impl RigExtension for RequestPatchPolicyBundle {
    fn install(&self, world: &mut World) -> (r: Result<(), ExtensionInstallError>)
        ensures
            installs(old(world)@, final(world)@, self.policy@, r),
    {
        install_policy_extension(world, self.policy.clone())
    }
}

/// An asynchronous approval policy evaluated before tool dispatch.
#[derive(Debug)]
pub struct ToolApprovalPolicyBundle {
    /// What the policy entity carries.
    pub policy: PolicyEntityBundle,
}

impl ToolApprovalPolicyBundle {
    /// Creates the policy for an agent.
    pub fn new(
        id: StableId,
        tenant: TenantId,
        agent: Entity,
        order: u32,
        revision: u64,
        prompt: String,
    ) -> (r: Self)
        ensures
            r.policy@ == bundle_of(
                id@,
                tenant@,
                agent,
                order,
                revision,
                (PolicyRuleView::RequireApproval { point: PolicyPoint::ToolCall, prompt: prompt@ }),
            ),
    {
        ToolApprovalPolicyBundle {
            policy: PolicyEntityBundle::new(
                id,
                tenant,
                agent,
                order,
                revision,
                PolicyRule::RequireApproval { point: PolicyPoint::ToolCall, prompt },
            ),
        }
    }
}

impl RigExtension for ToolApprovalPolicyBundle {
    fn install(&self, world: &mut World) -> (r: Result<(), ExtensionInstallError>)
        ensures
            installs(old(world)@, final(world)@, self.policy@, r),
    {
        install_policy_extension(world, self.policy.clone())
    }
}

/// An ordered tool-argument rewrite policy.
#[derive(Debug)]
pub struct ToolArgumentRewritePolicyBundle {
    /// What the policy entity carries.
    pub policy: PolicyEntityBundle,
}

impl ToolArgumentRewritePolicyBundle {
    /// Creates the policy for an agent.
    pub fn new(
        id: StableId,
        tenant: TenantId,
        agent: Entity,
        order: u32,
        revision: u64,
        tool: Option<String>,
        arguments: serde_json::Value,
    ) -> (r: Self)
        ensures
            r.policy@ == bundle_of(
                id@,
                tenant@,
                agent,
                order,
                revision,
                (PolicyRuleView::RewriteToolArguments { tool: tool.deep_view(), arguments }),
            ),
    {
        ToolArgumentRewritePolicyBundle {
            policy: PolicyEntityBundle::new(
                id,
                tenant,
                agent,
                order,
                revision,
                PolicyRule::RewriteToolArguments { tool, arguments },
            ),
        }
    }
}

impl RigExtension for ToolArgumentRewritePolicyBundle {
    fn install(&self, world: &mut World) -> (r: Result<(), ExtensionInstallError>)
        ensures
            installs(old(world)@, final(world)@, self.policy@, r),
    {
        install_policy_extension(world, self.policy.clone())
    }
}

/// A policy that skips matching tool calls.
#[derive(Debug)]
pub struct ToolSkipPolicyBundle {
    /// What the policy entity carries.
    pub policy: PolicyEntityBundle,
}

impl ToolSkipPolicyBundle {
    /// Creates the policy for an agent.
    pub fn new(
        id: StableId,
        tenant: TenantId,
        agent: Entity,
        order: u32,
        revision: u64,
        tool: Option<String>,
        reason: String,
    ) -> (r: Self)
        ensures
            r.policy@ == bundle_of(
                id@,
                tenant@,
                agent,
                order,
                revision,
                (PolicyRuleView::SkipToolCall { tool: tool.deep_view(), reason: reason@ }),
            ),
    {
        ToolSkipPolicyBundle {
            policy: PolicyEntityBundle::new(
                id,
                tenant,
                agent,
                order,
                revision,
                PolicyRule::SkipToolCall { tool, reason },
            ),
        }
    }
}

impl RigExtension for ToolSkipPolicyBundle {
    fn install(&self, world: &mut World) -> (r: Result<(), ExtensionInstallError>)
        ensures
            installs(old(world)@, final(world)@, self.policy@, r),
    {
        install_policy_extension(world, self.policy.clone())
    }
}

/// A policy that rewrites model-visible tool output while preserving raw audit data.
#[derive(Debug)]
pub struct ToolResultRedactionPolicyBundle {
    /// What the policy entity carries.
    pub policy: PolicyEntityBundle,
}

impl ToolResultRedactionPolicyBundle {
    /// Creates the policy for an agent.
    pub fn new(
        id: StableId,
        tenant: TenantId,
        agent: Entity,
        order: u32,
        revision: u64,
        tool: Option<String>,
        presentation: serde_json::Value,
    ) -> (r: Self)
        ensures
            r.policy@ == bundle_of(
                id@,
                tenant@,
                agent,
                order,
                revision,
                (PolicyRuleView::RewriteToolResult { tool: tool.deep_view(), presentation }),
            ),
    {
        ToolResultRedactionPolicyBundle {
            policy: PolicyEntityBundle::new(
                id,
                tenant,
                agent,
                order,
                revision,
                PolicyRule::RewriteToolResult { tool, presentation },
            ),
        }
    }
}

impl RigExtension for ToolResultRedactionPolicyBundle {
    fn install(&self, world: &mut World) -> (r: Result<(), ExtensionInstallError>)
        ensures
            installs(old(world)@, final(world)@, self.policy@, r),
    {
        install_policy_extension(world, self.policy.clone())
    }
}

/// A policy that stops streaming before publishing matching text deltas.
#[derive(Debug)]
pub struct TextDeltaStopPolicyBundle {
    /// What the policy entity carries.
    pub policy: PolicyEntityBundle,
}

impl TextDeltaStopPolicyBundle {
    /// Creates the policy for an agent.
    pub fn new(
        id: StableId,
        tenant: TenantId,
        agent: Entity,
        order: u32,
        revision: u64,
        needle: String,
        reason: String,
    ) -> (r: Self)
        ensures
            r.policy@ == bundle_of(
                id@,
                tenant@,
                agent,
                order,
                revision,
                (PolicyRuleView::StopTextDeltaContains { needle: needle@, reason: reason@ }),
            ),
    {
        TextDeltaStopPolicyBundle {
            policy: PolicyEntityBundle::new(
                id,
                tenant,
                agent,
                order,
                revision,
                PolicyRule::StopTextDeltaContains { needle, reason },
            ),
        }
    }
}

impl RigExtension for TextDeltaStopPolicyBundle {
    fn install(&self, world: &mut World) -> (r: Result<(), ExtensionInstallError>)
        ensures
            installs(old(world)@, final(world)@, self.policy@, r),
    {
        install_policy_extension(world, self.policy.clone())
    }
}

/// A policy that stops streaming before publishing matching tool-call deltas.
#[derive(Debug)]
pub struct ToolCallDeltaStopPolicyBundle {
    /// What the policy entity carries.
    pub policy: PolicyEntityBundle,
}

impl ToolCallDeltaStopPolicyBundle {
    /// Creates the policy for an agent.
    pub fn new(
        id: StableId,
        tenant: TenantId,
        agent: Entity,
        order: u32,
        revision: u64,
        needle: String,
        reason: String,
    ) -> (r: Self)
        ensures
            r.policy@ == bundle_of(
                id@,
                tenant@,
                agent,
                order,
                revision,
                (PolicyRuleView::StopToolCallDeltaContains { needle: needle@, reason: reason@ }),
            ),
    {
        ToolCallDeltaStopPolicyBundle {
            policy: PolicyEntityBundle::new(
                id,
                tenant,
                agent,
                order,
                revision,
                PolicyRule::StopToolCallDeltaContains { needle, reason },
            ),
        }
    }
}

impl RigExtension for ToolCallDeltaStopPolicyBundle {
    fn install(&self, world: &mut World) -> (r: Result<(), ExtensionInstallError>)
        ensures
            installs(old(world)@, final(world)@, self.policy@, r),
    {
        install_policy_extension(world, self.policy.clone())
    }
}

/// A policy that repairs a model-emitted tool name against the accepted snapshot.
#[derive(Debug)]
pub struct InvalidToolRepairPolicyBundle {
    /// What the policy entity carries.
    pub policy: PolicyEntityBundle,
}

impl InvalidToolRepairPolicyBundle {
    /// Creates the policy for an agent.
    pub fn new(
        id: StableId,
        tenant: TenantId,
        agent: Entity,
        order: u32,
        revision: u64,
        from: Option<String>,
        to: String,
    ) -> (r: Self)
        ensures
            r.policy@ == bundle_of(
                id@,
                tenant@,
                agent,
                order,
                revision,
                (PolicyRuleView::RepairInvalidTool { from: from.deep_view(), to: to@ }),
            ),
    {
        InvalidToolRepairPolicyBundle {
            policy: PolicyEntityBundle::new(
                id,
                tenant,
                agent,
                order,
                revision,
                PolicyRule::RepairInvalidTool { from, to },
            ),
        }
    }
}

impl RigExtension for InvalidToolRepairPolicyBundle {
    fn install(&self, world: &mut World) -> (r: Result<(), ExtensionInstallError>)
        ensures
            installs(old(world)@, final(world)@, self.policy@, r),
    {
        install_policy_extension(world, self.policy.clone())
    }
}

/// A policy that feeds an invalid call back to the model under explicit budgets.
#[derive(Debug)]
pub struct InvalidToolRetryPolicyBundle {
    /// What the policy entity carries.
    pub policy: PolicyEntityBundle,
}

impl InvalidToolRetryPolicyBundle {
    /// Creates the policy for an agent.
    pub fn new(
        id: StableId,
        tenant: TenantId,
        agent: Entity,
        order: u32,
        revision: u64,
        tool: Option<String>,
        feedback: String,
    ) -> (r: Self)
        ensures
            r.policy@ == bundle_of(
                id@,
                tenant@,
                agent,
                order,
                revision,
                (PolicyRuleView::RetryInvalidTool { tool: tool.deep_view(), feedback: feedback@ }),
            ),
    {
        InvalidToolRetryPolicyBundle {
            policy: PolicyEntityBundle::new(
                id,
                tenant,
                agent,
                order,
                revision,
                PolicyRule::RetryInvalidTool { tool, feedback },
            ),
        }
    }
}

impl RigExtension for InvalidToolRetryPolicyBundle {
    fn install(&self, world: &mut World) -> (r: Result<(), ExtensionInstallError>)
        ensures
            installs(old(world)@, final(world)@, self.policy@, r),
    {
        install_policy_extension(world, self.policy.clone())
    }
}

} // verus!
