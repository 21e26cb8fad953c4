//! What a standalone agent is built of.

use vstd::prelude::*;

use crate::builder::{
    composed, with_local_agent, with_local_stores, with_local_tools, LocalModelAgentBuilderView,
    LocalStoreRegistrationView, LocalToolRegistrationView, StructuredOutputMode,
};
use crate::column::Entity;
use crate::fold::picked;
use crate::json::json_text;
use crate::world::WorldView;

verus! {

/// Whether a schema is to be answered by a call of a terminal tool: where that is asked for, or
/// where it is left open, ordinary tools are there, and no terminal tool was chosen.
pub open spec fn answers_by_tool(b: LocalModelAgentBuilderView) -> bool {
    ||| b.structured_output_mode == StructuredOutputMode::Tool
    ||| b.structured_output_mode == StructuredOutputMode::Auto && b.tools.len() > 0
        && b.terminal_tool is None
}

/// A schema is presented as asked: by a terminal tool that the instructions ask to call, in the
/// instructions, or not at all, which leaves it to the provider. Without a schema nothing changes,
/// and in no case anything but the instructions and the terminal tool.
pub proof fn law_schemas_are_presented_as_asked(b: LocalModelAgentBuilderView)
    ensures
        ({
            let p = b.presented();
            let prompted = b.structured_output_mode == StructuredOutputMode::Prompted;
            &&& b.output_schema is None ==> p == b
            &&& b.output_schema is Some && !answers_by_tool(b) && !prompted ==> p == b
            &&& b.output_schema is Some && answers_by_tool(b) ==> {
                &&& p.terminal_tool == Some("final_result"@)
                &&& b.instructions.is_prefix_of(p.instructions)
                &&& p.instructions.len() > b.instructions.len()
            }
            &&& b.output_schema is Some && prompted ==> {
                &&& p.terminal_tool == Some(Seq::<char>::empty())
                &&& b.instructions.is_prefix_of(p.instructions)
                &&& json_text(b.output_schema->0).is_suffix_of(p.instructions)
            }
            &&& p.output_schema == b.output_schema
            &&& p.tools == b.tools
            &&& p.stores == b.stores
            &&& p.documents == b.documents
            &&& p.max_model_calls == b.max_model_calls
            &&& p.provider == b.provider
            &&& p.model_name == b.model_name
            &&& p.temperature_bits == b.temperature_bits
            &&& p.max_tokens == b.max_tokens
            &&& p.tool_choice == b.tool_choice
            &&& p.additional_params == b.additional_params
            &&& p.retrieval_limit == b.retrieval_limit
        }),
{
    let p = b.presented();
    if let Some(schema) = b.output_schema {
        let asked = crate::builder::terminal_instructions();
        let shown = crate::builder::schema_instructions(schema);
        reveal_strlit("\n\n");
        reveal_strlit(
            "When you have gathered enough information to answer, call the `final_result` tool exactly once with your final answer. Its arguments are the structured result and must satisfy the required schema. Do not return the final answer as plain text.",
        );
        if answers_by_tool(b) {
            assert(p.instructions.subrange(0, b.instructions.len() as int) =~= b.instructions);
        }
        if b.structured_output_mode == StructuredOutputMode::Prompted {
            assert(p.instructions.subrange(0, b.instructions.len() as int) =~= b.instructions);
            let n = json_text(schema).len();
            assert(p.instructions.subrange(
                p.instructions.len() - n,
                p.instructions.len() as int,
            ) =~= json_text(schema));
        }
    }
}

spec fn positions_of(b: LocalModelAgentBuilderView, n: int) -> Seq<int> {
    picked(Seq::new(n as nat, |i: int| i), |i: int| b.kept_position(i))
}

proof fn lemma_positions(b: LocalModelAgentBuilderView, n: int)
    requires
        0 <= n <= b.tools.len(),
    ensures
        forall|k: int|
            0 <= k < positions_of(b, n).len() ==> 0 <= #[trigger] positions_of(b, n)[k] < n
                && b.kept_position(positions_of(b, n)[k]) is Some,
        forall|j: int, k: int|
            0 <= j < k < positions_of(b, n).len() ==> #[trigger] positions_of(b, n)[j]
                < #[trigger] positions_of(b, n)[k],
        forall|i: int|
            0 <= i < n && #[trigger] b.kept_position(i) is Some ==> positions_of(b, n).contains(i),
    decreases n,
{
    let pick = |i: int| b.kept_position(i);
    let items = Seq::new(n as nat, |i: int| i);
    if n > 0 {
        lemma_positions(b, n - 1);
        let front = Seq::new((n - 1) as nat, |i: int| i);
        assert(items.drop_last() =~= front);
        assert(items.last() == n - 1);
        let before = positions_of(b, n - 1);
        let all = positions_of(b, n);
        assert(pick(n - 1) == b.kept_position(n - 1));
        assert(all == if b.kept_position(n - 1) is Some {
            before.push(n - 1)
        } else {
            before
        });
        assert forall|k: int| 0 <= k < all.len() implies 0 <= #[trigger] all[k] < n
            && b.kept_position(all[k]) is Some by {
            if k < before.len() {
                assert(all[k] == before[k]);
            }
        }
        assert forall|j: int, k: int| 0 <= j < k < all.len() implies #[trigger] all[j]
            < #[trigger] all[k] by {
            assert(all[j] == before[j]);
            if k < before.len() {
                assert(all[k] == before[k]);
            }
        }
        assert forall|i: int| 0 <= i < n && #[trigger] b.kept_position(i) is Some implies all.contains(
            i,
        ) by {
            if i < n - 1 {
                assert(before.contains(i));
                let k = choose|k: int| 0 <= k < before.len() && before[k] == i;
                assert(all[k] == i);
            } else {
                assert(all[all.len() - 1] == i);
            }
        }
    }
}

/// Of the tools with one name the last that was added is kept, and each name is. The tools that are
/// kept stand in the order in which they were added.
pub proof fn law_the_last_tool_of_a_name_is_kept(b: LocalModelAgentBuilderView)
    ensures
        ({
            let kept = b.kept_tools();
            let positions = b.kept_positions();
            &&& kept.len() == positions.len()
            &&& forall|k: int|
                0 <= k < kept.len() ==> 0 <= #[trigger] positions[k] < b.tools.len() && kept[k]
                    == b.tools[positions[k]]
            &&& forall|j: int, k: int|
                0 <= j < k < positions.len() ==> #[trigger] positions[j] < #[trigger] positions[k]
            &&& forall|j: int, k: int|
                0 <= j < k < kept.len() ==> (#[trigger] kept[j]).capability.name != (
                #[trigger] kept[k]).capability.name
            &&& forall|i: int|
                0 <= i < b.tools.len() && (forall|j: int|
                    i < j < b.tools.len() ==> (#[trigger] b.tools[j]).capability.name
                        != b.tools[i].capability.name) ==> kept.contains(#[trigger] b.tools[i])
        }),
{
    let n = b.tools.len() as int;
    let positions = b.kept_positions();
    let kept = b.kept_tools();
    assert(positions == positions_of(b, n));
    lemma_positions(b, n);
    assert forall|j: int, k: int| 0 <= j < k < kept.len() implies (
    #[trigger] kept[j]).capability.name != (#[trigger] kept[k]).capability.name by {
        assert(positions[j] < positions[k]);
        assert(b.kept_position(positions[j]) is Some);
        assert(b.tools[positions[k]].capability.name != b.tools[positions[j]].capability.name);
    }
    assert forall|i: int|
        0 <= i < b.tools.len() && (forall|j: int|
            i < j < b.tools.len() ==> (#[trigger] b.tools[j]).capability.name
                != b.tools[i].capability.name) implies kept.contains(#[trigger] b.tools[i]) by {
        assert(b.kept_position(i) is Some);
        let k = choose|k: int| 0 <= k < positions.len() && positions[k] == i;
        assert(kept[k] == b.tools[i]);
    }
}

/// Whether a tool is in a world as it was registered, and granted to an agent at a position.
pub open spec fn has_tool(
    w: WorldView,
    agent: Entity,
    registration: LocalToolRegistrationView,
    order: int,
    tool: Entity,
    grant: Entity,
) -> bool {
    &&& w.stable_ids.contains_key(tool)
    &&& w.stable_ids[tool] == registration.id
    &&& w.tenants.contains_key(tool)
    &&& w.tenants[tool] == "local"@
    &&& w.domain.tools.contains_key(tool)
    &&& w.domain.tools[tool] == registration.capability
    &&& w.stable_ids.contains_key(grant)
    &&& w.tenants.contains_key(grant)
    &&& w.tenants[grant] == "local"@
    &&& w.domain.tool_grants.contains_key(grant)
    &&& w.domain.tool_grants[grant].enabled
    &&& order <= u32::MAX ==> w.domain.tool_grants[grant].order == order
    &&& w.domain.grant_for_agent.contains_key(grant)
    &&& w.domain.grant_for_agent[grant] == agent
    &&& w.domain.grant_for_tool.contains_key(grant)
    &&& w.domain.grant_for_tool[grant] == tool
}

/// Whether a store is in a world as it was registered, and granted to an agent.
pub open spec fn has_store(
    w: WorldView,
    agent: Entity,
    registration: LocalStoreRegistrationView,
    store: Entity,
    grant: Entity,
) -> bool {
    &&& w.stable_ids.contains_key(store)
    &&& w.stable_ids[store] == registration.id
    &&& w.tenants.contains_key(store)
    &&& w.tenants[store] == "local"@
    &&& w.domain.stores.contains_key(store)
    &&& w.domain.stores[store] == registration.capability
    &&& w.stable_ids.contains_key(grant)
    &&& w.tenants.contains_key(grant)
    &&& w.tenants[grant] == "local"@
    &&& w.domain.store_grants.contains_key(grant)
    &&& w.domain.store_grants[grant] == registration.grant
    &&& w.domain.store_grant_for_agent.contains_key(grant)
    &&& w.domain.store_grant_for_agent[grant] == agent
    &&& w.domain.store_grant_for_store.contains_key(grant)
    &&& w.domain.store_grant_for_store[grant] == store
}

/// Whether the model and the agent of settings are in a world, with what the agent requires.
pub open spec fn has_agent(
    w: WorldView,
    b: LocalModelAgentBuilderView,
    model: Entity,
    agent: Entity,
) -> bool {
    let settings = w.domain.agents[agent];
    &&& w.stable_ids.contains_key(model)
    &&& w.tenants.contains_key(model)
    &&& w.tenants[model] == "local"@
    &&& w.domain.models.contains_key(model)
    &&& w.domain.models[model].provider == b.provider
    &&& w.domain.models[model].model == b.model_name
    &&& !w.domain.models[model].retired
    &&& w.tenants.contains_key(agent)
    &&& w.tenants[agent] == "local"@
    &&& w.domain.agents.contains_key(agent)
    &&& w.domain.uses_model.contains_key(agent)
    &&& w.domain.uses_model[agent] == model
    &&& settings.name == b.name
    &&& settings.description == b.description
    &&& settings.instructions == b.instructions
    &&& settings.temperature_bits == b.temperature_bits
    &&& settings.max_tokens == b.max_tokens
    &&& settings.tool_choice == b.tool_choice
    &&& settings.additional_params == b.additional_params
    &&& settings.documents == b.documents
    &&& settings.max_model_calls == b.max_model_calls
    &&& settings.terminal_tool == b.terminal_tool
    &&& b.output_schema is Some ==> w.domain.output_requirements.contains_key(agent)
        && w.domain.output_requirements[agent].schema == b.output_schema->0
    &&& b.retrieval_limit is Some ==> w.domain.retrieval_requirements.contains_key(agent)
        && w.domain.retrieval_requirements[agent].limit == b.retrieval_limit->0
}

/// Whether an agent has a tool at a position.
pub open spec fn is_granted(
    w: WorldView,
    agent: Entity,
    registration: LocalToolRegistrationView,
    order: int,
) -> bool {
    exists|tool: Entity, grant: Entity| #[trigger]
        has_tool(w, agent, registration, order, tool, grant)
}

/// Whether an agent has a store.
pub open spec fn is_accessible(
    w: WorldView,
    agent: Entity,
    registration: LocalStoreRegistrationView,
) -> bool {
    exists|store: Entity, grant: Entity| #[trigger]
        has_store(w, agent, registration, store, grant)
}

proof fn lemma_tools_made(
    w: WorldView,
    agent: Entity,
    tools: Seq<LocalToolRegistrationView>,
    n: int,
    b: LocalModelAgentBuilderView,
    model: Entity,
)
    requires
        0 <= n <= tools.len(),
        w.next + 2 * n <= u64::MAX,
        agent.0 < w.next,
        model.0 < w.next,
        has_agent(w, b, model, agent),
        with_local_tools(w, agent, tools, n) is Ok,
    ensures
        ({
            let t = with_local_tools(w, agent, tools, n)->Ok_0;
            &&& t.next == w.next + 2 * n
            &&& has_agent(t, b, model, agent)
            &&& forall|k: int|
                0 <= k < n ==> has_tool(
                    t,
                    agent,
                    #[trigger] tools[k],
                    k,
                    Entity((w.next + 2 * k) as u64),
                    Entity((w.next + 2 * k + 1) as u64),
                )
        }),
    decreases n,
{
    if n > 0 {
        lemma_tools_made(w, agent, tools, n - 1, b, model);
        let before = with_local_tools(w, agent, tools, n - 1)->Ok_0;
        let t = with_local_tools(w, agent, tools, n)->Ok_0;
        assert forall|k: int| 0 <= k < n implies has_tool(
            t,
            agent,
            #[trigger] tools[k],
            k,
            Entity((w.next + 2 * k) as u64),
            Entity((w.next + 2 * k + 1) as u64),
        ) by {
            if k < n - 1 {
                assert(has_tool(
                    before,
                    agent,
                    tools[k],
                    k,
                    Entity((w.next + 2 * k) as u64),
                    Entity((w.next + 2 * k + 1) as u64),
                ));
            }
        }
    }
}

proof fn lemma_stores_made(
    w: WorldView,
    agent: Entity,
    stores: Seq<LocalStoreRegistrationView>,
    n: int,
    b: LocalModelAgentBuilderView,
    model: Entity,
    tools: Seq<LocalToolRegistrationView>,
    first: u64,
)
    requires
        0 <= n <= stores.len(),
        w.next + 2 * n <= u64::MAX,
        agent.0 < w.next,
        model.0 < w.next,
        has_agent(w, b, model, agent),
        first + 2 * tools.len() <= w.next,
        forall|k: int|
            0 <= k < tools.len() ==> has_tool(
                w,
                agent,
                #[trigger] tools[k],
                k,
                Entity((first + 2 * k) as u64),
                Entity((first + 2 * k + 1) as u64),
            ),
        with_local_stores(w, agent, stores, n) is Ok,
    ensures
        ({
            let t = with_local_stores(w, agent, stores, n)->Ok_0;
            &&& t.next == w.next + 2 * n
            &&& has_agent(t, b, model, agent)
            &&& forall|k: int|
                0 <= k < tools.len() ==> has_tool(
                    t,
                    agent,
                    #[trigger] tools[k],
                    k,
                    Entity((first + 2 * k) as u64),
                    Entity((first + 2 * k + 1) as u64),
                )
            &&& forall|k: int|
                0 <= k < n ==> has_store(
                    t,
                    agent,
                    #[trigger] stores[k],
                    Entity((w.next + 2 * k) as u64),
                    Entity((w.next + 2 * k + 1) as u64),
                )
        }),
    decreases n,
{
    if n > 0 {
        lemma_stores_made(w, agent, stores, n - 1, b, model, tools, first);
        let before = with_local_stores(w, agent, stores, n - 1)->Ok_0;
        let t = with_local_stores(w, agent, stores, n)->Ok_0;
        assert forall|k: int| 0 <= k < tools.len() implies has_tool(
            t,
            agent,
            #[trigger] tools[k],
            k,
            Entity((first + 2 * k) as u64),
            Entity((first + 2 * k + 1) as u64),
        ) by {
            assert(has_tool(
                before,
                agent,
                tools[k],
                k,
                Entity((first + 2 * k) as u64),
                Entity((first + 2 * k + 1) as u64),
            ));
        }
        assert forall|k: int| 0 <= k < n implies has_store(
            t,
            agent,
            #[trigger] stores[k],
            Entity((w.next + 2 * k) as u64),
            Entity((w.next + 2 * k + 1) as u64),
        ) by {
            if k < n - 1 {
                assert(has_store(
                    before,
                    agent,
                    stores[k],
                    Entity((w.next + 2 * k) as u64),
                    Entity((w.next + 2 * k + 1) as u64),
                ));
            }
        }
    }
}

/// An agent that can be built has its settings and its model, and what it requires. Each tool that
/// is kept is granted to it at its position, and each store as it was registered. (The entities
/// must have numbers left.)
pub proof fn law_built_agents_have_what_was_registered(
    w: WorldView,
    b: LocalModelAgentBuilderView,
)
    requires
        composed(w, b) is Ok,
        w.next + 2 + 2 * b.kept_tools().len() + 2 * b.stores.len() <= u64::MAX,
    ensures
        ({
            let t = composed(w, b)->Ok_0;
            let model = w.fresh();
            let agent = Entity((w.next + 1) as u64);
            &&& has_agent(t, b, model, agent)
            &&& forall|k: int|
                0 <= k < b.kept_tools().len() ==> is_granted(
                    t,
                    agent,
                    #[trigger] b.kept_tools()[k],
                    k,
                )
            &&& forall|k: int|
                0 <= k < b.stores.len() ==> is_accessible(t, agent, #[trigger] b.stores[k])
        }),
{
    let model = w.fresh();
    let agent = Entity((w.next + 1) as u64);
    let tools = b.kept_tools();
    let start = with_local_agent(w, b);
    assert(has_agent(start, b, model, agent));
    lemma_tools_made(start, agent, tools, tools.len() as int, b, model);
    let made = with_local_tools(start, agent, tools, tools.len() as int)->Ok_0;
    lemma_stores_made(
        made,
        agent,
        b.stores,
        b.stores.len() as int,
        b,
        model,
        tools,
        start.next,
    );
    let t = composed(w, b)->Ok_0;
    assert forall|k: int| 0 <= k < tools.len() implies is_granted(
        t,
        agent,
        #[trigger] tools[k],
        k,
    ) by {
        assert(has_tool(
            t,
            agent,
            tools[k],
            k,
            Entity((start.next + 2 * k) as u64),
            Entity((start.next + 2 * k + 1) as u64),
        ));
    }
    assert forall|k: int| 0 <= k < b.stores.len() implies is_accessible(
        t,
        agent,
        #[trigger] b.stores[k],
    ) by {
        assert(has_store(
            t,
            agent,
            b.stores[k],
            Entity((made.next + 2 * k) as u64),
            Entity((made.next + 2 * k + 1) as u64),
        ));
    }
}

} // verus!
