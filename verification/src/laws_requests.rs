//! What the model and the stores are asked for a run.

use vstd::prelude::*;

use crate::capability::PolicyProgress;
use crate::column::{entities_of, lemma_entities, lemma_sources, sources_of, Entity};
use crate::effect::{
    CanonicalErrorView, OperationKind, StoreDecisionView, StoreOperationView, ToolDecisionView,
};
use crate::fold::{lemma_fold_reaches, lemma_picked_members, picked};
use crate::prepare_model::{
    name_taken, numbered_by_name, offered_tools, prepare_model_step, prepare_models, tool_candidate,
};
use crate::prepare_store::{prepare_store_step, prepare_stores, selected_store, store_candidate};
use crate::run::RunStateView;
use crate::sorting::{key_le, lemma_sort_rows, row_values, sort_rows, KeyView};
use crate::text::text_le;
use crate::world::WorldView;

verus! {

/// Two texts are ordered by the first character in which they differ; a text stands before each
/// text that it begins.
pub proof fn law_texts_are_ordered_by_their_first_difference(
    a: Seq<char>,
    b: Seq<char>,
    k: int,
)
    requires
        0 <= k <= a.len(),
        k <= b.len(),
        a.take(k) == b.take(k),
    ensures
        k < a.len() && k < b.len() && (a[k] as int) < (b[k] as int) ==> text_le(a, b) && !text_le(
            b,
            a,
        ),
        k == a.len() ==> text_le(a, b),
        k == a.len() && k < b.len() ==> !text_le(b, a),
    decreases k,
{
    reveal_with_fuel(text_le, 2);
    if k > 0 {
        assert(a[0] == a.take(k)[0] && b[0] == b.take(k)[0]);
        assert(a.drop_first().take(k - 1) =~= a.take(k).drop_first());
        assert(b.drop_first().take(k - 1) =~= b.take(k).drop_first());
        law_texts_are_ordered_by_their_first_difference(a.drop_first(), b.drop_first(), k - 1);
    }
}

/// Whether a grant gives an agent access to a tool, within one tenant.
pub open spec fn tool_granted(
    w: WorldView,
    agent: Entity,
    tenant: Seq<char>,
    grant: Entity,
    tool: Entity,
) -> bool {
    &&& w.domain.grant_for_agent.contains_key(grant)
    &&& w.domain.grant_for_agent[grant] == agent
    &&& w.domain.grant_for_tool.contains_key(grant)
    &&& w.domain.grant_for_tool[grant] == tool
    &&& w.domain.tool_grants.contains_key(grant)
    &&& w.domain.tool_grants[grant].enabled
    &&& w.stable_ids.contains_key(grant)
    &&& w.tenants.contains_key(grant)
    &&& w.tenants[grant] == tenant
    &&& w.domain.tools.contains_key(tool)
    &&& !w.domain.tools[tool].retired
    &&& w.stable_ids.contains_key(tool)
    &&& w.tenants.contains_key(tool)
    &&& w.tenants[tool] == tenant
}

/// Whether one granted tool stands before another: by the order of the grant, then that of the
/// tool, then the name of the tool, then the id of the grant.
pub open spec fn tool_precedes(w: WorldView, g: Entity, h: Entity) -> bool {
    let a = w.domain.tools[w.domain.grant_for_tool[g]];
    let b = w.domain.tools[w.domain.grant_for_tool[h]];
    let x = w.domain.tool_grants[g].order;
    let y = w.domain.tool_grants[h].order;
    ||| x < y
    ||| x == y && a.order < b.order
    ||| x == y && a.order == b.order && a.name != b.name && text_le(a.name, b.name)
    ||| x == y && a.order == b.order && a.name == b.name && text_le(
        w.stable_ids[g],
        w.stable_ids[h],
    )
}

/// Whether a tool is offered as it is at a grant.
pub open spec fn offered_as(w: WorldView, decision: ToolDecisionView, tool: Entity) -> bool {
    &&& decision.tool_entity == tool
    &&& decision.tool_id == w.stable_ids[tool]
    &&& decision.revision == w.domain.tools[tool].revision
    &&& decision.name == w.domain.tools[tool].name
    &&& decision.description == w.domain.tools[tool].description
    &&& decision.parameters == w.domain.tools[tool].parameters
}

/// Positions of the tools that are left once repeated names are left out.
spec fn kept_positions(tools: Seq<ToolDecisionView>) -> Seq<int>
    decreases tools.len(),
{
    if tools.len() == 0 {
        Seq::empty()
    } else {
        let before = kept_positions(tools.drop_last());
        if name_taken(numbered_by_name(tools.drop_last()), tools.last().name) {
            before
        } else {
            before.push(tools.len() - 1)
        }
    }
}

/// Whether two decisions differ at most in their number.
spec fn same_but_order(a: ToolDecisionView, b: ToolDecisionView) -> bool {
    a == (ToolDecisionView { order: a.order, ..b })
}

proof fn lemma_kept_positions(tools: Seq<ToolDecisionView>)
    ensures
        kept_positions(tools).len() == numbered_by_name(tools).len(),
        forall|i: int|
            0 <= i < kept_positions(tools).len() ==> 0 <= #[trigger] kept_positions(tools)[i]
                < tools.len() && same_but_order(
                numbered_by_name(tools)[i],
                tools[kept_positions(tools)[i]],
            ),
        forall|i: int, j: int|
            0 <= i < j < kept_positions(tools).len() ==> #[trigger] kept_positions(tools)[i]
                < #[trigger] kept_positions(tools)[j],
    decreases tools.len(),
{
    if tools.len() > 0 {
        let front = tools.drop_last();
        lemma_kept_positions(front);
        let before = kept_positions(front);
        assert forall|i: int|
            0 <= i < kept_positions(tools).len() implies 0 <= #[trigger] kept_positions(tools)[i]
            < tools.len() && same_but_order(
            numbered_by_name(tools)[i],
            tools[kept_positions(tools)[i]],
        ) by {
            if i < before.len() {
                assert(kept_positions(tools)[i] == before[i]);
                assert(front[before[i]] == tools[before[i]]);
            }
        }
        assert forall|i: int, j: int|
            0 <= i < j < kept_positions(tools).len() implies #[trigger] kept_positions(tools)[i]
            < #[trigger] kept_positions(tools)[j] by {
            assert(kept_positions(tools)[i] == before[i]);
            if j < before.len() {
                assert(kept_positions(tools)[j] == before[j]);
            }
        }
    }
}

/// Each name is kept, at its first position.
proof fn lemma_name_is_kept(tools: Seq<ToolDecisionView>, k: int) -> (i: int)
    requires
        0 <= k < tools.len(),
    ensures
        0 <= i < kept_positions(tools).len(),
        kept_positions(tools)[i] <= k,
        numbered_by_name(tools)[i].name == tools[k].name,
    decreases tools.len(),
{
    lemma_kept_positions(tools);
    let front = tools.drop_last();
    let rest = numbered_by_name(front);
    let last = tools.last();
    if k < front.len() {
        let i = lemma_name_is_kept(front, k);
        lemma_kept_positions(front);
        assert(front[k] == tools[k]);
        i
    } else if name_taken(rest, last.name) {
        lemma_kept_positions(front);
        let m = choose|m: int| 0 <= m < rest.len() && (#[trigger] rest[m]).name == last.name;
        assert(kept_positions(front)[m] < front.len());
        m
    } else {
        kept_positions(tools).len() - 1
    }
}

/// The key of a row.
spec fn key_of<V>(row: Option<(KeyView, V)>) -> KeyView {
    match row {
        Some((key, _)) => key,
        None => Seq::empty(),
    }
}

/// The key by which a granted tool is sorted orders tools as they stand before each other.
proof fn lemma_tool_keys(w: WorldView, tenant: Seq<char>, g: Entity, h: Entity)
    requires
        tool_candidate(w, tenant, g) is Some,
        tool_candidate(w, tenant, h) is Some,
        key_le(key_of(tool_candidate(w, tenant, g)), key_of(tool_candidate(w, tenant, h))),
    ensures
        tool_precedes(w, g, h),
{
    reveal_with_fuel(key_le, 6);
    let a = key_of(tool_candidate(w, tenant, g));
    let b = key_of(tool_candidate(w, tenant, h));
    assert(a.drop_first()[0] == a[1] && b.drop_first()[0] == b[1]);
    assert(a.drop_first().drop_first()[0] == a[2] && b.drop_first().drop_first()[0] == b[2]);
    assert(a.drop_first().drop_first().drop_first()[0] == a[3]
        && b.drop_first().drop_first().drop_first()[0] == b[3]);
    if a == b {
        crate::text::lemma_text_le_reflexive(w.stable_ids[g]);
    }
}

/// The sorted rows of the tools that grants give an agent.
spec fn tool_rows(w: WorldView, agent: Entity, tenant: Seq<char>) -> Seq<
    (KeyView, ToolDecisionView),
> {
    sort_rows(
        picked(
            sources_of(w.domain.grant_for_agent, agent),
            |grant: Entity| tool_candidate(w, tenant, grant),
        ),
    )
}

/// Whether a grant gives an agent a tool, with a row.
spec fn gives_row(
    w: WorldView,
    agent: Entity,
    tenant: Seq<char>,
    grant: Entity,
    row: (KeyView, ToolDecisionView),
) -> bool {
    &&& tool_granted(w, agent, tenant, grant, w.domain.grant_for_tool[grant])
    &&& tool_candidate(w, tenant, grant) == Some(row)
}

proof fn lemma_row_has_grant(w: WorldView, agent: Entity, tenant: Seq<char>, k: int)
    requires
        w.domain.grant_for_agent.dom().finite(),
        0 <= k < tool_rows(w, agent, tenant).len(),
    ensures
        exists|grant: Entity| #[trigger]
            gives_row(w, agent, tenant, grant, tool_rows(w, agent, tenant)[k]),
{
    let ids = sources_of(w.domain.grant_for_agent, agent);
    let pick = |grant: Entity| tool_candidate(w, tenant, grant);
    let rows = picked(ids, pick);
    let sorted = tool_rows(w, agent, tenant);
    assert(sorted == sort_rows(rows));
    lemma_sort_rows(rows);
    rows.to_multiset_ensures();
    sorted.to_multiset_ensures();
    assert(sorted.contains(sorted[k]));
    assert(sorted.to_multiset().count(sorted[k]) > 0);
    assert(rows.contains(sorted[k]));
    lemma_picked_members(ids, pick, sorted[k]);
    let i = choose|i: int| 0 <= i < ids.len() && #[trigger] pick(ids[i]) == Some(sorted[k]);
    assert(ids.contains(ids[i]));
    lemma_sources(w.domain.grant_for_agent, agent, ids[i]);
    assert(gives_row(w, agent, tenant, ids[i], sorted[k]));
}

proof fn lemma_grant_has_row(
    w: WorldView,
    agent: Entity,
    tenant: Seq<char>,
    grant: Entity,
    tool: Entity,
) -> (k: int)
    requires
        w.domain.grant_for_agent.dom().finite(),
        tool_granted(w, agent, tenant, grant, tool),
    ensures
        0 <= k < tool_rows(w, agent, tenant).len(),
        tool_candidate(w, tenant, grant) == Some(tool_rows(w, agent, tenant)[k]),
{
    let ids = sources_of(w.domain.grant_for_agent, agent);
    let pick = |grant: Entity| tool_candidate(w, tenant, grant);
    let rows = picked(ids, pick);
    let sorted = tool_rows(w, agent, tenant);
    assert(sorted == sort_rows(rows));
    lemma_sort_rows(rows);
    rows.to_multiset_ensures();
    sorted.to_multiset_ensures();
    lemma_sources(w.domain.grant_for_agent, agent, grant);
    let m = choose|m: int| 0 <= m < ids.len() && ids[m] == grant;
    let row = tool_candidate(w, tenant, grant)->0;
    assert(pick(ids[m]) == Some(row));
    lemma_picked_members(ids, pick, row);
    assert(rows.contains(row));
    assert(rows.to_multiset().count(row) > 0);
    assert(sorted.contains(row));
    choose|k: int| 0 <= k < sorted.len() && sorted[k] == row
}

/// The grants behind the tools that are offered.
pub open spec fn behind_offer(
    w: WorldView,
    agent: Entity,
    tenant: Seq<char>,
    offered: Seq<ToolDecisionView>,
    grants: Seq<Entity>,
) -> bool {
    &&& grants.len() == offered.len()
    &&& forall|i: int|
        0 <= i < grants.len() ==> tool_granted(
            w,
            agent,
            tenant,
            #[trigger] grants[i],
            w.domain.grant_for_tool[grants[i]],
        ) && offered_as(w, offered[i], w.domain.grant_for_tool[grants[i]])
    &&& forall|i: int, j: int|
        0 <= i < j < grants.len() ==> tool_precedes(w, #[trigger] grants[i], #[trigger] grants[j])
    &&& forall|g: Entity, tool: Entity| #[trigger]
        tool_granted(w, agent, tenant, g, tool) ==> exists|i: int|
            0 <= i < grants.len() && offered[i].name == w.domain.tools[tool].name
                && tool_precedes(w, #[trigger] grants[i], g)
}

/// The tools that a model is offered are those that enabled grants give the agent within its
/// tenant, each as it is at that moment, and no retired one. They stand in the order of their
/// grants, and of tools with one name the first is offered.
pub proof fn law_offered_tools_are_the_granted_ones(w: WorldView, agent: Entity, tenant: Seq<char>)
    requires
        w.domain.grant_for_agent.dom().finite(),
    ensures
        exists|grants: Seq<Entity>| #[trigger]
            behind_offer(w, agent, tenant, offered_tools(w, agent, tenant), grants),
{
    let rows = tool_rows(w, agent, tenant);
    let tools = row_values(rows);
    let kept = kept_positions(tools);
    let offered = offered_tools(w, agent, tenant);
    assert(offered == numbered_by_name(tools));
    lemma_kept_positions(tools);
    lemma_sort_rows(
        picked(
            sources_of(w.domain.grant_for_agent, agent),
            |grant: Entity| tool_candidate(w, tenant, grant),
        ),
    );
    let grants = Seq::new(
        kept.len(),
        |i: int|
            choose|grant: Entity| #[trigger] gives_row(w, agent, tenant, grant, rows[kept[i]]),
    );
    assert forall|i: int| 0 <= i < grants.len() implies gives_row(
        w,
        agent,
        tenant,
        #[trigger] grants[i],
        rows[kept[i]],
    ) by {
        assert(0 <= kept[i] < tools.len());
        lemma_row_has_grant(w, agent, tenant, kept[i]);
    }
    assert forall|i: int| 0 <= i < grants.len() implies tool_granted(
        w,
        agent,
        tenant,
        #[trigger] grants[i],
        w.domain.grant_for_tool[grants[i]],
    ) && offered_as(w, offered[i], w.domain.grant_for_tool[grants[i]]) by {
        assert(gives_row(w, agent, tenant, grants[i], rows[kept[i]]));
        assert(same_but_order(offered[i], tools[kept[i]]));
        assert(tools[kept[i]] == rows[kept[i]].1);
    }
    assert forall|i: int, j: int| 0 <= i < j < grants.len() implies tool_precedes(
        w,
        #[trigger] grants[i],
        #[trigger] grants[j],
    ) by {
        assert(kept[i] < kept[j]);
        assert(gives_row(w, agent, tenant, grants[i], rows[kept[i]]));
        assert(gives_row(w, agent, tenant, grants[j], rows[kept[j]]));
        assert(key_le(rows[kept[i]].0, rows[kept[j]].0));
        lemma_tool_keys(w, tenant, grants[i], grants[j]);
    }
    assert forall|g: Entity, tool: Entity| #[trigger]
        tool_granted(w, agent, tenant, g, tool) implies exists|i: int|
        0 <= i < grants.len() && offered[i].name == w.domain.tools[tool].name && tool_precedes(
            w,
            #[trigger] grants[i],
            g,
        ) by {
        let k = lemma_grant_has_row(w, agent, tenant, g, tool);
        let i = lemma_name_is_kept(tools, k);
        assert(tools[k] == rows[k].1);
        assert(gives_row(w, agent, tenant, grants[i], rows[kept[i]]));
        assert(key_le(rows[kept[i]].0, rows[k].0));
        lemma_tool_keys(w, tenant, grants[i], g);
        assert(0 <= i < grants.len() && offered[i].name == w.domain.tools[tool].name
            && tool_precedes(w, grants[i], g));
    }
    assert(behind_offer(w, agent, tenant, offered, grants));
}

/// Whether a run is queued, with its conversation and its documents looked up.
pub open spec fn waits_for_request(w: WorldView, run: Entity, agent: Entity) -> bool {
    &&& w.runs.states.dom().finite()
    &&& w.runs.states.contains_key(run)
    &&& w.runs.states[run] is Queued
    &&& w.runs.records.contains_key(run)
    &&& w.runs.records[run].memory_loaded
    &&& w.runs.records[run].retrieval_loaded
    &&& w.runs.run_of.contains_key(run)
    &&& w.runs.run_of[run] == agent
    &&& w.tenants.contains_key(run)
}

/// Whether an agent can be asked to answer.
pub open spec fn knows_agent(w: WorldView, agent: Entity) -> bool {
    &&& w.tenants.contains_key(agent)
    &&& w.domain.agents.contains_key(agent)
    &&& w.domain.uses_model.contains_key(agent)
}

/// Whether a model can be called.
pub open spec fn knows_model(w: WorldView, model: Entity) -> bool {
    &&& w.stable_ids.contains_key(model)
    &&& w.tenants.contains_key(model)
    &&& w.domain.models.contains_key(model)
}

/// Whether a run has model calls left under a limit: its own, or else that of its agent.
pub open spec fn limited_to(w: WorldView, run: Entity, agent: Entity, limit: u32) -> bool {
    match w.runs.records[run].max_model_calls {
        Some(own) => limit == own,
        None => limit == w.domain.agents[agent].max_model_calls,
    }
}

/// Whether nothing stands in the way of a model call of a run.
pub open spec fn can_ask_model(
    w: WorldView,
    run: Entity,
    agent: Entity,
    model: Entity,
    limit: u32,
) -> bool {
    &&& waits_for_request(w, run, agent)
    &&& knows_agent(w, agent)
    &&& w.domain.uses_model[agent] == model
    &&& knows_model(w, model)
    &&& w.tenants[agent] == w.tenants[run]
    &&& w.tenants[model] == w.tenants[run]
    &&& !w.domain.models[model].retired
    &&& limited_to(w, run, agent, limit)
    &&& w.runs.records[run].next_turn < limit
}

/// The request of a run holds what the run asks and what its agent is set to: the instructions,
/// the whole transcript, the tools on offer, the schema of the run or else that of the agent, and
/// the documents of the agent followed by those that were found for the run. It names the model of
/// the agent as it is at that moment.
pub proof fn law_requests_hold_the_run_and_its_agent(
    w: WorldView,
    run: Entity,
    agent: Entity,
    model: Entity,
    limit: u32,
)
    requires
        can_ask_model(w, run, agent, model, limit),
    ensures
        ({
            let t = prepare_model_step(w, run);
            let operation = t.runs.states[run]->WaitingModel_operation;
            let input = t.operations.model_inputs[operation];
            let settings = w.domain.agents[agent];
            let record = w.runs.records[run];
            &&& t.runs.states[run] is WaitingModel
            &&& operation == w.fresh()
            &&& t.operations.model_inputs.contains_key(operation)
            &&& t.operations.kinds[operation] == OperationKind::Model
            &&& t.operations.operation_of[operation] == run
            &&& t.operations.states[operation].phase is Prepared
            &&& t.operations.policy_progress[operation] == PolicyProgress::Pending
            &&& t.operations.accepted_policies[operation].0.len() == 0
            &&& t.operations.stream_states[operation].next_sequence == 0
            &&& input.decision.model_entity == model
            &&& input.decision.model_id == w.stable_ids[model]
            &&& input.decision.revision == w.domain.models[model].revision
            &&& input.decision.provider == w.domain.models[model].provider
            &&& input.decision.model == w.domain.models[model].model
            &&& input.decision.tenant == w.tenants[run]
            &&& input.instructions == settings.instructions
            &&& input.prompt == record.prompt
            &&& input.prompt_text == record.prompt_text
            &&& input.history == record.transcript
            &&& input.tools == offered_tools(w, agent, w.tenants[run])
            &&& input.tool_results.len() == 0
            &&& input.documents.len() == settings.documents.len()
                + record.retrieved_documents.len()
            &&& forall|i: int|
                #![trigger settings.documents[i]]
                0 <= i < settings.documents.len() ==> input.documents[i] == settings.documents[i]
            &&& forall|i: int|
                #![trigger record.retrieved_documents[i]]
                0 <= i < record.retrieved_documents.len()
                    ==> input.documents[settings.documents.len() + i]
                    == record.retrieved_documents[i]
            &&& record.output_schema is Some ==> input.output_schema == record.output_schema
            &&& record.output_schema is None && w.domain.output_requirements.contains_key(agent)
                ==> input.output_schema == Some(w.domain.output_requirements[agent].schema)
            &&& record.output_schema is None && !w.domain.output_requirements.contains_key(agent)
                ==> input.output_schema is None
            &&& input.terminal_tool == settings.terminal_tool
            &&& input.temperature_bits == settings.temperature_bits
            &&& input.max_tokens == settings.max_tokens
            &&& input.tool_choice == settings.tool_choice
            &&& input.additional_params == settings.additional_params
            &&& t.runs.records == w.runs.records
            &&& t.domain == w.domain
        }),
{
}

/// When the requests of all runs are prepared, each run whose model can be asked waits for it.
pub proof fn law_every_ready_run_asks_its_model(
    w: WorldView,
    run: Entity,
    agent: Entity,
    model: Entity,
    limit: u32,
)
    requires
        can_ask_model(w, run, agent, model, limit),
    ensures
        prepare_models(w).runs.states[run] is WaitingModel,
        prepare_models(w).runs.records == w.runs.records,
{
    lemma_entities(w.runs.states.dom());
    let ids = entities_of(w.runs.states.dom());
    assert(ids.to_set().contains(run));
    lemma_fold_reaches(
        ids,
        run,
        w,
        |w: WorldView, e: Entity| prepare_model_step(w, e),
        |v: WorldView|
            {
                &&& v.domain == w.domain
                &&& v.tenants == w.tenants
                &&& v.stable_ids == w.stable_ids
                &&& v.runs.run_of == w.runs.run_of
                &&& v.runs.records == w.runs.records
                &&& v.runs.states.contains_key(run)
                &&& v.runs.states[run] == w.runs.states[run]
            },
        |v: WorldView|
            {
                &&& v.runs.records == w.runs.records
                &&& v.runs.states.contains_key(run)
                &&& v.runs.states[run] is WaitingModel
            },
    );
}

/// A run whose model cannot be asked fails, and says why: its agent or its model is gone, they
/// belong to another tenant, the model is retired, or the run has no model call left.
pub proof fn law_runs_that_cannot_ask_fail(w: WorldView, run: Entity, agent: Entity, limit: u32)
    requires
        waits_for_request(w, run, agent),
    ensures
        ({
            let state = prepare_models(w).runs.states[run];
            let model = w.domain.uses_model[agent];
            &&& !knows_agent(w, agent) ==> state == RunStateView::Failed(
                CanonicalErrorView::StaleEntity("agent"@),
            )
            &&& knows_agent(w, agent) && !knows_model(w, model) ==> state == RunStateView::Failed(
                CanonicalErrorView::StaleEntity("model"@),
            )
            &&& knows_agent(w, agent) && knows_model(w, model) && (w.tenants[agent]
                != w.tenants[run] || w.tenants[model] != w.tenants[run]) ==> state
                == RunStateView::Failed(CanonicalErrorView::TenantMismatch)
            &&& knows_agent(w, agent) && knows_model(w, model) && w.tenants[agent]
                == w.tenants[run] && w.tenants[model] == w.tenants[run]
                && w.domain.models[model].retired ==> state == RunStateView::Failed(
                CanonicalErrorView::RetiredCapability,
            )
            &&& knows_agent(w, agent) && knows_model(w, model) && w.tenants[agent]
                == w.tenants[run] && w.tenants[model] == w.tenants[run]
                && !w.domain.models[model].retired && limited_to(w, run, agent, limit)
                && w.runs.records[run].next_turn >= limit ==> state == RunStateView::Failed(
                CanonicalErrorView::ModelCallBudget { limit },
            )
        }),
{
    let one = prepare_model_step(w, run);
    if one.runs.states[run] is Failed {
        lemma_entities(w.runs.states.dom());
        let ids = entities_of(w.runs.states.dom());
        assert(ids.to_set().contains(run));
        lemma_fold_reaches(
            ids,
            run,
            w,
            |w: WorldView, e: Entity| prepare_model_step(w, e),
            |v: WorldView|
                {
                    &&& v.domain == w.domain
                    &&& v.tenants == w.tenants
                    &&& v.stable_ids == w.stable_ids
                    &&& v.runs.run_of == w.runs.run_of
                    &&& v.runs.records == w.runs.records
                    &&& v.runs.states.contains_key(run)
                    &&& v.runs.states[run] == w.runs.states[run]
                },
            |v: WorldView|
                {
                    &&& v.runs.states.contains_key(run)
                    &&& v.runs.states[run] == one.runs.states[run]
                },
        );
    }
}

/// A run that is not queued, or whose conversation or documents were not looked up, asks nothing.
pub proof fn law_other_runs_ask_nothing(w: WorldView, run: Entity)
    requires
        !(w.runs.states.contains_key(run) && w.runs.states[run] is Queued)
            || !w.runs.records[run].memory_loaded || !w.runs.records[run].retrieval_loaded,
    ensures
        prepare_model_step(w, run) == w,
{
}

/// Whether a grant gives an agent access to a store of a kind, within one tenant.
pub open spec fn store_granted(
    w: WorldView,
    agent: Entity,
    tenant: Seq<char>,
    kind: Seq<char>,
    grant: Entity,
    store: Entity,
) -> bool {
    &&& w.domain.store_grant_for_agent.contains_key(grant)
    &&& w.domain.store_grant_for_agent[grant] == agent
    &&& w.domain.store_grant_for_store.contains_key(grant)
    &&& w.domain.store_grant_for_store[grant] == store
    &&& w.domain.store_grants.contains_key(grant)
    &&& w.domain.store_grants[grant].enabled
    &&& w.stable_ids.contains_key(grant)
    &&& w.tenants.contains_key(grant)
    &&& w.tenants[grant] == tenant
    &&& w.domain.stores.contains_key(store)
    &&& !w.domain.stores[store].retired
    &&& w.domain.stores[store].kind == kind
    &&& w.stable_ids.contains_key(store)
    &&& w.tenants.contains_key(store)
    &&& w.tenants[store] == tenant
}

/// Whether one grant of a store stands before another: by its order, then by its id.
pub open spec fn store_precedes(w: WorldView, g: Entity, h: Entity) -> bool {
    let x = w.domain.store_grants[g].order;
    let y = w.domain.store_grants[h].order;
    x < y || x == y && text_le(w.stable_ids[g], w.stable_ids[h])
}

/// Whether a decision names a store as it is.
pub open spec fn decided_for(
    w: WorldView,
    decision: StoreDecisionView,
    store: Entity,
    tenant: Seq<char>,
) -> bool {
    &&& decision.store_entity == store
    &&& decision.store_id == w.stable_ids[store]
    &&& decision.revision == w.domain.stores[store].revision
    &&& decision.kind == w.domain.stores[store].kind
    &&& decision.tenant == tenant
}

/// Whether a store is the one of its kind that an agent uses: the first that is granted to it.
pub open spec fn is_first_store(
    w: WorldView,
    agent: Entity,
    tenant: Seq<char>,
    kind: Seq<char>,
    grant: Entity,
    decision: StoreDecisionView,
) -> bool {
    &&& store_granted(w, agent, tenant, kind, grant, decision.store_entity)
    &&& decided_for(w, decision, decision.store_entity, tenant)
    &&& forall|h: Entity, store: Entity| #[trigger]
        store_granted(w, agent, tenant, kind, h, store) ==> store_precedes(w, grant, h)
}

/// Whether no store of a kind is granted to an agent within a tenant.
pub open spec fn no_store(w: WorldView, agent: Entity, tenant: Seq<char>, kind: Seq<char>) -> bool {
    forall|grant: Entity, store: Entity|
        !#[trigger] store_granted(w, agent, tenant, kind, grant, store)
}

/// Whether a decision is for the store of a kind that an agent uses.
pub open spec fn is_the_store(
    w: WorldView,
    agent: Entity,
    tenant: Seq<char>,
    kind: Seq<char>,
    decision: StoreDecisionView,
) -> bool {
    exists|grant: Entity| #[trigger] is_first_store(w, agent, tenant, kind, grant, decision)
}

proof fn lemma_store_keys(
    w: WorldView,
    tenant: Seq<char>,
    kind: Seq<char>,
    g: Entity,
    h: Entity,
)
    requires
        store_candidate(w, tenant, kind, g) is Some,
        store_candidate(w, tenant, kind, h) is Some,
        key_le(
            key_of(store_candidate(w, tenant, kind, g)),
            key_of(store_candidate(w, tenant, kind, h)),
        ),
    ensures
        store_precedes(w, g, h),
{
    reveal_with_fuel(key_le, 4);
    let a = key_of(store_candidate(w, tenant, kind, g));
    let b = key_of(store_candidate(w, tenant, kind, h));
    assert(a.drop_first()[0] == a[1] && b.drop_first()[0] == b[1]);
    if a == b {
        crate::text::lemma_text_le_reflexive(w.stable_ids[g]);
    }
}

/// The store of a kind that a run uses is the first of those that enabled grants give its agent
/// within its tenant, by the order and then the id of the grant; there is none where none is
/// granted.
pub proof fn law_the_first_granted_store_is_used(
    w: WorldView,
    agent: Entity,
    tenant: Seq<char>,
    kind: Seq<char>,
)
    requires
        w.domain.store_grant_for_agent.dom().finite(),
    ensures
        selected_store(w, agent, tenant, kind) is Some ==> is_the_store(
            w,
            agent,
            tenant,
            kind,
            selected_store(w, agent, tenant, kind)->0,
        ),
        selected_store(w, agent, tenant, kind) is None <==> no_store(w, agent, tenant, kind),
{
    let ids = sources_of(w.domain.store_grant_for_agent, agent);
    let pick = |grant: Entity| store_candidate(w, tenant, kind, grant);
    let rows = picked(ids, pick);
    let sorted = sort_rows(rows);
    assert(selected_store(w, agent, tenant, kind) == if sorted.len() > 0 {
        Some(sorted[0].1)
    } else {
        None
    });
    lemma_sort_rows(rows);
    rows.to_multiset_ensures();
    sorted.to_multiset_ensures();
    assert forall|h: Entity, store: Entity| #[trigger]
        store_granted(w, agent, tenant, kind, h, store) implies sorted.contains(
        store_candidate(w, tenant, kind, h)->0,
    ) by {
        lemma_sources(w.domain.store_grant_for_agent, agent, h);
        let m = choose|m: int| 0 <= m < ids.len() && ids[m] == h;
        let row = store_candidate(w, tenant, kind, h)->0;
        assert(pick(ids[m]) == Some(row));
        lemma_picked_members(ids, pick, row);
        assert(rows.contains(row));
        assert(rows.to_multiset().count(row) > 0);
    }
    if sorted.len() > 0 {
        let decision = selected_store(w, agent, tenant, kind)->0;
        assert(decision == sorted[0].1);
        assert(sorted.contains(sorted[0]));
        assert(sorted.to_multiset().count(sorted[0]) > 0);
        assert(rows.contains(sorted[0]));
        lemma_picked_members(ids, pick, sorted[0]);
        let i = choose|i: int| 0 <= i < ids.len() && #[trigger] pick(ids[i]) == Some(sorted[0]);
        let grant = ids[i];
        assert(ids.contains(grant));
        lemma_sources(w.domain.store_grant_for_agent, agent, grant);
        assert forall|h: Entity, store: Entity| #[trigger]
            store_granted(w, agent, tenant, kind, h, store) implies store_precedes(w, grant, h) by {
            let row = store_candidate(w, tenant, kind, h)->0;
            let k = choose|k: int| 0 <= k < sorted.len() && sorted[k] == row;
            assert(key_le(sorted[0].0, sorted[k].0));
            lemma_store_keys(w, tenant, kind, grant, h);
        }
        assert(is_first_store(w, agent, tenant, kind, grant, decision));
        assert(store_granted(w, agent, tenant, kind, grant, decision.store_entity));
    } else {
        assert forall|grant: Entity, store: Entity|
            !#[trigger] store_granted(w, agent, tenant, kind, grant, store) by {
            if store_granted(w, agent, tenant, kind, grant, store) {
                let row = store_candidate(w, tenant, kind, grant)->0;
                assert(sorted.contains(row));
                let k = choose|k: int| 0 <= k < sorted.len() && sorted[k] == row;
                assert(0 <= k < sorted.len());
            }
        }
        assert(selected_store(w, agent, tenant, kind) is None);
    }
}

/// Whether a run is queued for an agent of the world.
pub open spec fn is_queued(w: WorldView, run: Entity, agent: Entity) -> bool {
    &&& w.runs.states.contains_key(run)
    &&& w.runs.states[run] is Queued
    &&& w.runs.records.contains_key(run)
    &&& w.runs.run_of.contains_key(run)
    &&& w.runs.run_of[run] == agent
    &&& w.tenants.contains_key(run)
    &&& w.domain.store_grant_for_agent.dom().finite()
}

/// A queued run with a conversation first asks the first memory store that is granted to its agent
/// for it, and remembers the store. Without a conversation or such a store the conversation counts
/// as looked up.
pub proof fn law_conversations_are_loaded_first(w: WorldView, run: Entity, agent: Entity)
    requires
        is_queued(w, run, agent),
        !w.runs.records[run].memory_loaded,
    ensures
        ({
            let t = prepare_store_step(w, run);
            let record = w.runs.records[run];
            let tenant = w.tenants[run];
            let store = t.runs.states[run]->WaitingStore_operation;
            let none = no_store(w, agent, tenant, "conversation-memory"@);
            if record.conversation is Some && !none {
                &&& t.runs.states[run] is WaitingStore
                &&& t.operations.store_inputs.contains_key(store)
                &&& t.operations.kinds[store] == OperationKind::Store
                &&& t.operations.operation_of[store] == run
                &&& t.operations.states[store].phase is Prepared
                &&& t.operations.store_inputs[store].operation
                    == (StoreOperationView::LoadConversation {
                    conversation: record.conversation->0,
                })
                &&& is_the_store(
                    w,
                    agent,
                    tenant,
                    "conversation-memory"@,
                    t.operations.store_inputs[store].decision,
                )
                &&& t.runs.records[run].memory_store == Some(
                    t.operations.store_inputs[store].decision,
                )
                &&& !t.runs.records[run].memory_loaded
                &&& t.runs.records[run].transcript == record.transcript
            } else {
                &&& t.runs.states[run] is Queued
                &&& t.runs.records[run].memory_loaded
                &&& t.runs.records[run].memory_store == record.memory_store
                &&& t.runs.records[run].transcript == record.transcript
                &&& t.runs.records[run].retrieval_loaded == record.retrieval_loaded
            }
        }),
{
    law_the_first_granted_store_is_used(w, agent, w.tenants[run], "conversation-memory"@);
}

/// Once its conversation is looked up, a queued run of an agent that requires documents asks the
/// first search store that is granted to the agent for documents near its prompt, and for no more
/// than required. Otherwise the documents count as looked up.
pub proof fn law_documents_are_retrieved_for_the_prompt(w: WorldView, run: Entity, agent: Entity)
    requires
        is_queued(w, run, agent),
        w.runs.records[run].memory_loaded,
        !w.runs.records[run].retrieval_loaded,
    ensures
        ({
            let t = prepare_store_step(w, run);
            let record = w.runs.records[run];
            let tenant = w.tenants[run];
            let store = t.runs.states[run]->WaitingStore_operation;
            let none = no_store(w, agent, tenant, "vector-search"@);
            if w.domain.retrieval_requirements.contains_key(agent) && !none {
                &&& t.runs.states[run] is WaitingStore
                &&& t.operations.store_inputs.contains_key(store)
                &&& t.operations.kinds[store] == OperationKind::Store
                &&& t.operations.operation_of[store] == run
                &&& t.operations.states[store].phase is Prepared
                &&& t.operations.store_inputs[store].operation is Retrieve
                &&& t.operations.store_inputs[store].operation->limit
                    == w.domain.retrieval_requirements[agent].limit
                &&& record.prompt_text is Some
                    ==> t.operations.store_inputs[store].operation->query == record.prompt_text->0
                &&& record.prompt_text is None
                    ==> t.operations.store_inputs[store].operation->query.len() == 0
                &&& is_the_store(
                    w,
                    agent,
                    tenant,
                    "vector-search"@,
                    t.operations.store_inputs[store].decision,
                )
                &&& t.runs.records[run].retrieval_store == Some(
                    t.operations.store_inputs[store].decision,
                )
                &&& !t.runs.records[run].retrieval_loaded
            } else {
                &&& t.runs.states[run] is Queued
                &&& t.runs.records[run].retrieval_loaded
                &&& t.runs.records[run].retrieved_documents == record.retrieved_documents
                &&& t.runs.records[run].transcript == record.transcript
            }
        }),
{
    law_the_first_granted_store_is_used(w, agent, w.tenants[run], "vector-search"@);
}

/// When the store work of all runs is prepared, each queued run gets what its own work gives it:
/// the record is the same, and so is whether it waits.
pub proof fn law_store_work_is_prepared_for_every_run(w: WorldView, run: Entity, agent: Entity)
    requires
        is_queued(w, run, agent),
        w.runs.states.dom().finite(),
    ensures
        prepare_stores(w).runs.records[run] == prepare_store_step(w, run).runs.records[run],
        prepare_stores(w).runs.states[run] is WaitingStore <==> prepare_store_step(
            w,
            run,
        ).runs.states[run] is WaitingStore,
        prepare_stores(w).runs.states[run] is Queued <==> prepare_store_step(
            w,
            run,
        ).runs.states[run] is Queued,
{
    let one = prepare_store_step(w, run);
    lemma_entities(w.runs.states.dom());
    let ids = entities_of(w.runs.states.dom());
    assert(ids.to_set().contains(run));
    lemma_stores_one_by_one(w, run, agent, ids);
}

proof fn lemma_stores_one_by_one(w: WorldView, run: Entity, agent: Entity, ids: Seq<Entity>)
    requires
        is_queued(w, run, agent),
        crate::column::strictly_ascending(ids),
    ensures
        ({
            let one = prepare_store_step(w, run);
            let v = ids.fold_left(w, |w: WorldView, e: Entity| prepare_store_step(w, e));
            &&& v.domain == w.domain
            &&& v.tenants == w.tenants
            &&& v.stable_ids == w.stable_ids
            &&& v.runs.run_of == w.runs.run_of
            &&& v.runs.records.contains_key(run)
            &&& v.runs.states.contains_key(run)
            &&& if ids.contains(run) {
                &&& v.runs.records[run] == one.runs.records[run]
                &&& v.runs.states[run] is WaitingStore == one.runs.states[run] is WaitingStore
                &&& v.runs.states[run] is Queued == one.runs.states[run] is Queued
            } else {
                &&& v.runs.records[run] == w.runs.records[run]
                &&& v.runs.states[run] == w.runs.states[run]
            }
        }),
    decreases ids.len(),
{
    reveal_with_fuel(Seq::fold_left, 2);
    if ids.len() > 0 {
        let front = ids.drop_last();
        let last = ids.last();
        lemma_stores_one_by_one(w, run, agent, front);
        let v = front.fold_left(w, |w: WorldView, e: Entity| prepare_store_step(w, e));
        assert(ids.contains(run) <==> front.contains(run) || last == run) by {
            if ids.contains(run) && last != run {
                let k = choose|k: int| 0 <= k < ids.len() && ids[k] == run;
                assert(front[k] == run);
            }
            if front.contains(run) {
                let k = choose|k: int| 0 <= k < front.len() && front[k] == run;
                assert(ids[k] == run);
            }
            assert(ids[ids.len() - 1] == last);
        }
        if front.contains(run) {
            let k = choose|k: int| 0 <= k < front.len() && front[k] == run;
            assert(ids[k].0 < ids[ids.len() - 1].0);
        }
        if last == run {
            assert(selected_store(v, agent, v.tenants[run], "conversation-memory"@)
                == selected_store(w, agent, w.tenants[run], "conversation-memory"@)) by {
                lemma_same_store(w, v, agent, w.tenants[run], "conversation-memory"@);
            }
            lemma_same_store(w, v, agent, w.tenants[run], "vector-search"@);
        }
    }
}

proof fn lemma_same_store(
    w: WorldView,
    v: WorldView,
    agent: Entity,
    tenant: Seq<char>,
    kind: Seq<char>,
)
    requires
        v.domain == w.domain,
        v.tenants == w.tenants,
        v.stable_ids == w.stable_ids,
    ensures
        selected_store(v, agent, tenant, kind) == selected_store(w, agent, tenant, kind),
{
    assert((|grant: Entity| store_candidate(v, tenant, kind, grant)) =~= (|grant: Entity|
        store_candidate(w, tenant, kind, grant)));
}

} // verus!
