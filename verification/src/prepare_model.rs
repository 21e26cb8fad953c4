//! Preparation of model operations for queued runs.

use vstd::prelude::*;

use crate::capability::{AcceptedPolicies, AcceptedPoliciesView, AgentView, PolicyProgress};
use crate::column::{entities_of, sources_of, Entity};
use crate::effect::{
    CanonicalError, CanonicalErrorView, ModelDecision, ModelDecisionView, ModelEffectInput,
    ModelEffectInputView, ToolDecision, ToolDecisionView,
};
use crate::fold::{lemma_fold_next, lemma_picked_next, picked};
use crate::identity::TenantId;
use crate::numeric::{clamp, clamped};
use crate::prepare_store::run_queued;
use crate::run::{RunRecord, RunRecordView, RunState, RunStateView};
use crate::sorting::{row_values, sort_rows, sort_values, KeyPart, KeyPartView, KeyView};
use crate::world::{World, WorldView};

verus! {

/// The tool that a grant offers to a tenant, with the key by which it is ordered; nothing where
/// the grant or its tool does not qualify.
pub open spec fn tool_candidate(w: WorldView, tenant: Seq<char>, grant: Entity) -> Option<
    (KeyView, ToolDecisionView),
> {
    let tool = w.domain.grant_for_tool[grant];
    if w.stable_ids.contains_key(grant) && w.tenants.contains_key(grant)
        && w.domain.tool_grants.contains_key(grant) && w.domain.grant_for_tool.contains_key(grant)
        && w.domain.tool_grants[grant].enabled && w.tenants[grant] == tenant
        && w.stable_ids.contains_key(tool) && w.tenants.contains_key(tool)
        && w.domain.tools.contains_key(tool) && w.tenants[tool] == tenant
        && !w.domain.tools[tool].retired {
        Some(
            (
                seq![
                    KeyPartView::Number(w.domain.tool_grants[grant].order as u64),
                    KeyPartView::Number(w.domain.tools[tool].order as u64),
                    KeyPartView::Text(w.domain.tools[tool].name),
                    KeyPartView::Text(w.stable_ids[grant]),
                ],
                ToolDecisionView {
                    tool_entity: tool,
                    tool_id: w.stable_ids[tool],
                    revision: w.domain.tools[tool].revision,
                    name: w.domain.tools[tool].name,
                    description: w.domain.tools[tool].description,
                    parameters: w.domain.tools[tool].parameters,
                    order: 0,
                },
            ),
        )
    } else {
        None
    }
}

/// Whether a tool of the given name is among the tools.
pub open spec fn name_taken(tools: Seq<ToolDecisionView>, name: Seq<char>) -> bool {
    exists|i: int| 0 <= i < tools.len() && (#[trigger] tools[i]).name == name
}

/// The tools without those whose name an earlier one has, numbered by their position.
pub open spec fn numbered_by_name(tools: Seq<ToolDecisionView>) -> Seq<ToolDecisionView>
    decreases tools.len(),
{
    if tools.len() == 0 {
        Seq::empty()
    } else {
        let rest = numbered_by_name(tools.drop_last());
        if name_taken(rest, tools.last().name) {
            rest
        } else {
            rest.push(ToolDecisionView { order: clamped(rest.len()), ..tools.last() })
        }
    }
}

/// The tools that an agent's run offers to the model.
pub open spec fn offered_tools(w: WorldView, agent: Entity, tenant: Seq<char>) -> Seq<
    ToolDecisionView,
> {
    numbered_by_name(
        row_values(
            sort_rows(
                picked(
                    sources_of(w.domain.grant_for_agent, agent),
                    |grant: Entity| tool_candidate(w, tenant, grant),
                ),
            ),
        ),
    )
}

/// Why a queued run cannot call a model, if it cannot.
pub open spec fn model_refusal(w: WorldView, run: Entity) -> Option<CanonicalErrorView> {
    let agent = w.runs.run_of[run];
    let model = w.domain.uses_model[agent];
    let record = w.runs.records[run];
    if !(w.tenants.contains_key(agent) && w.domain.agents.contains_key(agent)
        && w.domain.uses_model.contains_key(agent)) {
        Some(CanonicalErrorView::StaleEntity("agent"@))
    } else if !(w.stable_ids.contains_key(model) && w.tenants.contains_key(model)
        && w.domain.models.contains_key(model)) {
        Some(CanonicalErrorView::StaleEntity("model"@))
    } else if w.tenants[agent] != w.tenants[run] || w.tenants[model] != w.tenants[run] {
        Some(CanonicalErrorView::TenantMismatch)
    } else if w.domain.models[model].retired {
        Some(CanonicalErrorView::RetiredCapability)
    } else if record.next_turn >= call_limit(record, w.domain.agents[agent]) {
        Some(
            CanonicalErrorView::ModelCallBudget {
                limit: call_limit(record, w.domain.agents[agent]),
            },
        )
    } else {
        None
    }
}

/// Model calls that a run may make: its own limit, or else that of its agent.
pub open spec fn call_limit(record: RunRecordView, agent: AgentView) -> u32 {
    match record.max_model_calls {
        Some(limit) => limit,
        None => agent.max_model_calls,
    }
}

/// Model calls that a run may make, as far as it is known: a run without a limit of its own has
/// none once its agent is gone.
pub open spec fn known_limit(w: WorldView, run: Entity) -> Option<u32> {
    let agent = w.runs.run_of[run];
    if !w.runs.records.contains_key(run) {
        None
    } else if w.runs.records[run].max_model_calls is Some {
        w.runs.records[run].max_model_calls
    } else if w.runs.run_of.contains_key(run) && w.domain.agents.contains_key(agent) {
        Some(w.domain.agents[agent].max_model_calls)
    } else {
        None
    }
}

/// The model decision of a run.
pub open spec fn model_decision(w: WorldView, run: Entity) -> ModelDecisionView {
    let model = w.domain.uses_model[w.runs.run_of[run]];
    ModelDecisionView {
        model_entity: model,
        model_id: w.stable_ids[model],
        revision: w.domain.models[model].revision,
        provider: w.domain.models[model].provider,
        model: w.domain.models[model].model,
        tenant: w.tenants[run],
    }
}

/// The model input of a run: what it asks, with its agent's settings as they are now.
pub open spec fn model_input(w: WorldView, run: Entity) -> ModelEffectInputView {
    let agent = w.runs.run_of[run];
    let settings = w.domain.agents[agent];
    let record = w.runs.records[run];
    ModelEffectInputView {
        decision: model_decision(w, run),
        instructions: settings.instructions,
        prompt: record.prompt,
        prompt_text: record.prompt_text,
        history: record.transcript,
        tools: offered_tools(w, agent, w.tenants[run]),
        tool_results: Seq::empty(),
        output_schema: match record.output_schema {
            Some(schema) => Some(schema),
            None => if w.domain.output_requirements.contains_key(agent) {
                Some(w.domain.output_requirements[agent].schema)
            } else {
                None
            },
        },
        terminal_tool: settings.terminal_tool,
        documents: settings.documents + record.retrieved_documents,
        temperature_bits: settings.temperature_bits,
        max_tokens: settings.max_tokens,
        tool_choice: settings.tool_choice,
        additional_params: settings.additional_params,
    }
}

/// The world after the model call of one run was prepared, if the run is ready for it.
pub open spec fn prepare_model_step(w: WorldView, run: Entity) -> WorldView {
    if !run_queued(w, run) || !w.runs.records[run].memory_loaded
        || !w.runs.records[run].retrieval_loaded {
        w
    } else {
        match model_refusal(w, run) {
            Some(error) => w.with_failure(run, error),
            None => {
                let operation = w.fresh();
                w.with_model_operation(
                    run,
                    model_input(w, run),
                    AcceptedPoliciesView(Seq::empty()),
                    PolicyProgress::Pending,
                ).with_run_state(run, RunStateView::WaitingModel { operation }).progressed()
            },
        }
    }
}

/// The world after the model call of every ready run was prepared.
pub open spec fn prepare_models(w: WorldView) -> WorldView {
    entities_of(w.runs.states.dom()).fold_left(
        w,
        |w: WorldView, e: Entity| prepare_model_step(w, e),
    )
}

fn offer_tool(world: &World, tenant: &TenantId, grant: Entity) -> (r: Option<
    (Vec<KeyPart>, ToolDecision),
>)
    ensures
        r.deep_view() == tool_candidate(world@, tenant@, grant),
{
    let order: u32 = match world.domain.tool_grants.get(grant) {
        Some(access) => {
            if !access.enabled {
                return None;
            }
            access.order
        },
        None => {
            return None;
        },
    };
    let tool = match world.domain.grant_for_tool.get(grant) {
        Some(tool) => *tool,
        None => {
            return None;
        },
    };
    match (world.tenants.get(grant), world.tenants.get(tool)) {
        (Some(own), Some(target)) => {
            if !own.same(tenant) || !target.same(tenant) {
                return None;
            }
        },
        _ => {
            return None;
        },
    }
    match (
        world.stable_ids.get(grant),
        world.stable_ids.get(tool),
        world.domain.tools.get(tool),
    ) {
        (Some(grant_id), Some(tool_id), Some(capability)) => {
            if capability.retired {
                return None;
            }
            let key = vec![
                KeyPart::Number(order as u64),
                KeyPart::Number(capability.order as u64),
                KeyPart::Text(capability.name.clone()),
                KeyPart::Text(grant_id.text()),
            ];
            proof {
                assert(key.deep_view() =~= seq![
                    KeyPartView::Number(order as u64),
                    KeyPartView::Number(capability.order as u64),
                    KeyPartView::Text(capability.name@),
                    KeyPartView::Text(grant_id@),
                ]);
            }
            Some(
                (
                    key,
                    ToolDecision {
                        tool_entity: tool,
                        tool_id: tool_id.clone(),
                        revision: capability.revision,
                        name: capability.name.clone(),
                        description: capability.description.clone(),
                        parameters: capability.parameters.clone(),
                        order: 0,
                    },
                ),
            )
        },
        _ => None,
    }
}

fn is_name_taken(tools: &Vec<ToolDecision>, name: &String) -> (r: bool)
    ensures
        r == name_taken(tools.deep_view(), name@),
{
    let ghost views = tools.deep_view();
    let mut i: usize = 0;
    while i < tools.len()
        invariant
            i <= tools@.len(),
            views == tools.deep_view(),
            forall|k: int| 0 <= k < i ==> (#[trigger] views[k]).name != name@,
        decreases tools@.len() - i,
    {
        assert(views[i as int] == tools@[i as int]@);
        if tools[i].name == *name {
            return true;
        }
        i = i + 1;
    }
    false
}

fn number_by_name(tools: &Vec<ToolDecision>) -> (r: Vec<ToolDecision>)
    ensures
        r.deep_view() == numbered_by_name(tools.deep_view()),
{
    let ghost views = tools.deep_view();
    let mut r: Vec<ToolDecision> = Vec::new();
    let mut i: usize = 0;
    assert(views.take(0) =~= Seq::empty());
    assert(r.deep_view() =~= Seq::empty());
    while i < tools.len()
        invariant
            i <= tools@.len(),
            views == tools.deep_view(),
            r.deep_view() == numbered_by_name(views.take(i as int)),
        decreases tools@.len() - i,
    {
        proof {
            assert(views.take(i + 1).drop_last() =~= views.take(i as int));
            assert(views.take(i + 1).last() == tools@[i as int]@);
        }
        let ghost before = r.deep_view();
        if !is_name_taken(&r, &tools[i].name) {
            let mut decision = tools[i].clone();
            decision.order = clamp(r.len());
            r.push(decision);
            assert(r.deep_view() =~= before.push(decision@));
        }
        i = i + 1;
    }
    assert(views.take(i as int) =~= views);
    r
}

/// The tools that a run of an agent offers to the model.
pub fn select_tools(world: &World, agent: Entity, tenant: &TenantId) -> (r: Vec<ToolDecision>)
    ensures
        r.deep_view() == offered_tools(world@, agent, tenant@),
{
    broadcast use crate::fold::group_fold;

    let ids = world.domain.grant_for_agent.sources(agent);
    let ghost pick = |grant: Entity| tool_candidate(world@, tenant@, grant);
    let mut rows: Vec<(Vec<KeyPart>, ToolDecision)> = Vec::new();
    let mut i: usize = 0;
    assert(rows.deep_view() =~= Seq::empty());
    while i < ids.len()
        invariant
            i <= ids@.len(),
            pick == (|grant: Entity| tool_candidate(world@, tenant@, grant)),
            rows.deep_view() == picked(ids@.take(i as int), pick),
        decreases ids@.len() - i,
    {
        proof {
            lemma_picked_next(ids@, i as int, pick);
        }
        let ghost before = rows.deep_view();
        if let Some(row) = offer_tool(world, tenant, ids[i]) {
            rows.push(row);
            assert(rows.deep_view() =~= before.push(row.deep_view()));
        }
        i = i + 1;
    }
    number_by_name(&sort_values(rows))
}

/// Model calls that a run may make, as far as it is known.
pub fn find_limit(world: &World, run: Entity, record: &RunRecord) -> (r: Option<u32>)
    requires
        world@.runs.records.contains_key(run),
        world@.runs.records[run] == record@,
    ensures
        r == known_limit(world@, run),
{
    match record.max_model_calls {
        Some(limit) => Some(limit),
        None => match world.runs.run_of.get(run) {
            Some(agent) => match world.domain.agents.get(*agent) {
                Some(settings) => Some(settings.max_model_calls),
                None => None,
            },
            None => None,
        },
    }
}

/// Decides why a queued run cannot call a model.
fn refuse_model(
    world: &World,
    run: Entity,
    agent: Entity,
    tenant: &TenantId,
    record: &RunRecord,
) -> (r: Option<CanonicalError>)
    requires
        world@.runs.run_of[run] == agent,
        world@.tenants[run] == tenant@,
        world@.runs.records[run] == record@,
    ensures
        r.deep_view() == model_refusal(world@, run),
{
    match (
        world.tenants.get(agent),
        world.domain.agents.get(agent),
        world.domain.uses_model.get(agent),
    ) {
        (Some(agent_tenant), Some(settings), Some(model)) => match (
            world.stable_ids.get(*model),
            world.tenants.get(*model),
            world.domain.models.get(*model),
        ) {
            (Some(_), Some(model_tenant), Some(capability)) => {
                if !agent_tenant.same(tenant) || !model_tenant.same(tenant) {
                    return Some(CanonicalError::TenantMismatch);
                }
                if capability.retired {
                    return Some(CanonicalError::RetiredCapability);
                }
                let limit: u32 = match record.max_model_calls {
                    Some(limit) => limit,
                    None => settings.max_model_calls,
                };
                if record.next_turn >= limit {
                    return Some(CanonicalError::ModelCallBudget { limit });
                }
                None
            },
            _ => Some(CanonicalError::StaleEntity("model".to_owned())),
        },
        _ => Some(CanonicalError::StaleEntity("agent".to_owned())),
    }
}

/// The model input of a run that may call its model.
fn assemble_input(
    world: &World,
    run: Entity,
    agent: Entity,
    tenant: &TenantId,
    record: &RunRecord,
) -> (r: Option<ModelEffectInput>)
    requires
        world@.runs.run_of[run] == agent,
        world@.tenants[run] == tenant@,
        world@.runs.records[run] == record@,
        model_refusal(world@, run) is None,
    ensures
        r is Some,
        r->0@ == model_input(world@, run),
{
    let tools = select_tools(world, agent, tenant);
    match (world.domain.agents.get(agent), world.domain.uses_model.get(agent)) {
        (Some(settings), Some(model)) => match (
            world.stable_ids.get(*model),
            world.domain.models.get(*model),
        ) {
            (Some(model_id), Some(capability)) => {
                let decision = ModelDecision {
                    model_entity: *model,
                    model_id: model_id.clone(),
                    revision: capability.revision,
                    provider: capability.provider.clone(),
                    model: capability.model.clone(),
                    tenant: tenant.clone(),
                };
                let output_schema = match &record.output_schema {
                    Some(schema) => Some(schema.clone()),
                    None => match world.domain.output_requirements.get(agent) {
                        Some(requirement) => Some(requirement.schema.clone()),
                        None => None,
                    },
                };
                let mut documents = settings.documents.clone();
                let mut retrieved = record.retrieved_documents.clone();
                assert(documents.deep_view() =~= settings.documents.deep_view());
                assert(retrieved.deep_view() =~= record.retrieved_documents.deep_view());
                documents.append(&mut retrieved);
                assert(documents.deep_view() =~= settings.documents.deep_view()
                    + record.retrieved_documents.deep_view());
                let history = record.transcript.clone();
                assert(history.deep_view() =~= record.transcript.deep_view());
                let input = ModelEffectInput {
                    decision,
                    instructions: settings.instructions.clone(),
                    prompt: record.prompt.clone(),
                    prompt_text: record.prompt_text.clone(),
                    history,
                    tools,
                    tool_results: Vec::new(),
                    output_schema,
                    terminal_tool: settings.terminal_tool.clone(),
                    documents,
                    temperature_bits: settings.temperature_bits,
                    max_tokens: settings.max_tokens,
                    tool_choice: settings.tool_choice.clone(),
                    additional_params: settings.additional_params.clone(),
                };
                proof {
                    assert(input.prompt_text.deep_view() =~= record.prompt_text.deep_view());
                    assert(input.tool_results.deep_view() =~= Seq::empty());
                    assert(input.terminal_tool.deep_view() =~= settings.terminal_tool.deep_view());
                    assert(input.tool_choice.deep_view() =~= settings.tool_choice.deep_view());
                    assert(input@ =~= model_input(world@, run));
                }
                Some(input)
            },
            _ => None,
        },
        _ => None,
    }
}

/// Prepares the model call of one run, if it is ready for it.
pub fn prepare_model_operation(world: &mut World, run: Entity)
    ensures
        final(world)@ == prepare_model_step(old(world)@, run),
{
    let tenant = match world.tenants.get(run) {
        Some(tenant) => tenant.clone(),
        None => {
            return;
        },
    };
    let agent = match world.runs.run_of.get(run) {
        Some(agent) => *agent,
        None => {
            return;
        },
    };
    match world.runs.states.get(run) {
        Some(RunState::Queued) => {},
        _ => {
            return;
        },
    }
    let record = match world.runs.records.get(run) {
        Some(record) => record.clone(),
        None => {
            return;
        },
    };
    if !record.memory_loaded || !record.retrieval_loaded {
        return;
    }
    if let Some(error) = refuse_model(world, run, agent, &tenant, &record) {
        world.fail_run(run, error);
        return;
    }
    if let Some(input) = assemble_input(world, run, agent, &tenant, &record) {
        let accepted = AcceptedPolicies(Vec::new());
        assert(accepted.0.deep_view() =~= Seq::empty());
        let operation = world.spawn_model_operation(run, input, accepted, PolicyProgress::Pending);
        world.set_run_state(run, RunState::WaitingModel { operation });
        world.mark_progress();
    }
}

/// Prepares the model call of every ready run.
pub fn prepare_model_operations(world: &mut World)
    ensures
        final(world)@ == prepare_models(old(world)@),
{
    broadcast use crate::fold::group_fold;

    let ids = world.runs.states.entities();
    let ghost start = world@;
    let ghost step = |w: WorldView, e: Entity| prepare_model_step(w, e);
    let mut i: usize = 0;
    while i < ids.len()
        invariant
            i <= ids@.len(),
            step == (|w: WorldView, e: Entity| prepare_model_step(w, e)),
            world@ == ids@.take(i as int).fold_left(start, step),
        decreases ids@.len() - i,
    {
        proof {
            lemma_fold_next(ids@, i as int, start, step);
        }
        prepare_model_operation(world, ids[i]);
        i = i + 1;
    }
}

} // verus!
