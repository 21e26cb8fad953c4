//! An agent whose identities are all generated can always be built.

use vstd::prelude::*;

use crate::builder::{
    composed, numbered, numbered_store, with_local_agent, with_local_store, with_local_stores,
    with_local_tool, with_local_tools, LocalModelAgentBuilderView, LocalStoreRegistrationView,
    LocalToolRegistrationView,
};
use crate::capability::ToolCapabilityView;
use crate::column::Entity;
use crate::fold::{first_picked, lemma_picked_next, picked};
use crate::runtime::{id_taken, spawn_fault, untenanted};
use crate::text::{decimal_text, digit_char};
use crate::unique::lemma_decimal_injective;
use crate::world::WorldView;

verus! {

/// Whether a store has a generated id of its position.
pub open spec fn has_generated_store_id(b: LocalModelAgentBuilderView, i: int) -> bool {
    ||| b.stores[i].id == numbered("local-vector-store-"@, i as nat)
    ||| b.stores[i].id == numbered("local-conversation-store-"@, i as nat)
}

/// Whether all tools and stores of the settings have the generated ids of their positions, as
/// those that were not given an id have.
pub open spec fn is_generated(b: LocalModelAgentBuilderView) -> bool {
    &&& forall|i: int|
        0 <= i < b.tools.len() ==> (#[trigger] b.tools[i]).id == numbered(
            "local-tool-"@,
            i as nat,
        )
    &&& forall|i: int| 0 <= i < b.stores.len() ==> #[trigger] has_generated_store_id(b, i)
}

/// A tool without an own id keeps the settings generated.
pub proof fn law_tools_stay_generated(
    b: LocalModelAgentBuilderView,
    capability: ToolCapabilityView,
)
    requires
        is_generated(b),
    ensures
        is_generated(
            (LocalModelAgentBuilderView {
                tools: b.tools.push(
                    LocalToolRegistrationView {
                        id: numbered("local-tool-"@, b.tools.len()),
                        capability,
                    },
                ),
                ..b
            }),
        ),
{
    let next = LocalModelAgentBuilderView {
        tools: b.tools.push(
            LocalToolRegistrationView { id: numbered("local-tool-"@, b.tools.len()), capability },
        ),
        ..b
    };
    assert forall|i: int| 0 <= i < next.stores.len() implies #[trigger] has_generated_store_id(
        next,
        i,
    ) by {
        assert(has_generated_store_id(b, i));
    }
}

/// A store without an own id keeps the settings generated.
pub proof fn law_stores_stay_generated(b: LocalModelAgentBuilderView, kind: Seq<char>, memory: bool)
    requires
        is_generated(b),
    ensures
        is_generated(
            (LocalModelAgentBuilderView {
                stores: b.stores.push(
                    numbered_store(
                        if memory {
                            "local-conversation-store-"@
                        } else {
                            "local-vector-store-"@
                        },
                        kind,
                        b.stores.len(),
                    ),
                ),
                ..b
            }),
        ),
{
    let prefix = if memory {
        "local-conversation-store-"@
    } else {
        "local-vector-store-"@
    };
    let next = LocalModelAgentBuilderView {
        stores: b.stores.push(numbered_store(prefix, kind, b.stores.len())),
        ..b
    };
    assert forall|i: int| 0 <= i < next.stores.len() implies #[trigger] has_generated_store_id(
        next,
        i,
    ) by {
        if i < b.stores.len() {
            assert(has_generated_store_id(b, i));
            assert(next.stores[i] == b.stores[i]);
        }
    }
}

proof fn lemma_first_digit(n: nat)
    ensures
        decimal_text(n).len() > 0,
        decimal_text(n)[0] != 'g',
    decreases n,
{
    if n >= 10 {
        lemma_first_digit(n / 10);
    } else {
        assert(decimal_text(n)[0] == digit_char(n));
    }
}

proof fn lemma_numbered_injective(prefix: Seq<char>, a: nat, b: nat)
    requires
        numbered(prefix, a) == numbered(prefix, b),
    ensures
        a == b,
{
    assert(numbered(prefix, a).skip(prefix.len() as int) =~= decimal_text(a));
    assert(numbered(prefix, b).skip(prefix.len() as int) =~= decimal_text(b));
    lemma_decimal_injective(a, b);
}

/// The places at which generated ids of different families differ.
proof fn lemma_families(n: nat)
    ensures
        "local-model"@[6] == 'm',
        "local-agent"@[6] == 'a',
        numbered("local-tool-"@, n)[6] == 't',
        numbered("local-tool-"@, n)[11] != 'g',
        numbered("local-tool-grant-"@, n)[6] == 't',
        numbered("local-tool-grant-"@, n)[11] == 'g',
        numbered("local-vector-store-"@, n)[6] == 'v',
        numbered("local-conversation-store-"@, n)[6] == 'c',
        numbered("local-store-grant-"@, n)[6] == 's',
{
    reveal_strlit("local-model");
    reveal_strlit("local-agent");
    reveal_strlit("local-tool-");
    reveal_strlit("local-tool-grant-");
    reveal_strlit("local-vector-store-");
    reveal_strlit("local-conversation-store-");
    reveal_strlit("local-store-grant-");
    lemma_first_digit(n);
    assert("local-tool-"@.len() == 11);
    assert(numbered("local-tool-"@, n)[11] == decimal_text(n)[0]);
}

/// Whether an id is one of those that the first tools and the first stores brought in.
spec fn is_brought(
    tools: Seq<LocalToolRegistrationView>,
    stores: Seq<LocalStoreRegistrationView>,
    k: int,
    m: int,
    id: Seq<char>,
) -> bool {
    ||| id == "local-model"@
    ||| id == "local-agent"@
    ||| exists|j: int| 0 <= j < k && (#[trigger] tools[j]).id == id
    ||| exists|j: nat| j < k && #[trigger] numbered("local-tool-grant-"@, j) == id
    ||| exists|j: int| 0 <= j < m && (#[trigger] stores[j]).id == id
    ||| exists|j: nat| j < m && #[trigger] numbered("local-store-grant-"@, j) == id
}

/// Whether a world holds only what an agent, the first tools and the first stores brought in, all
/// of one tenant.
spec fn is_local(
    w: WorldView,
    agent: Entity,
    tools: Seq<LocalToolRegistrationView>,
    stores: Seq<LocalStoreRegistrationView>,
    k: int,
    m: int,
) -> bool {
    &&& w.tenants.contains_key(agent)
    &&& forall|e: Entity| #[trigger] w.tenants.contains_key(e) ==> w.tenants[e] == "local"@
    &&& forall|e: Entity| #[trigger]
        w.stable_ids.contains_key(e) ==> is_brought(tools, stores, k, m, w.stable_ids[e])
}

/// Whether tools have generated ids, each another one.
spec fn has_tool_ids(tools: Seq<LocalToolRegistrationView>, positions: Seq<int>) -> bool {
    &&& tools.len() == positions.len()
    &&& forall|i: int|
        0 <= i < tools.len() ==> 0 <= positions[i] && (#[trigger] tools[i]).id == numbered(
            "local-tool-"@,
            positions[i] as nat,
        )
    &&& forall|i: int, j: int|
        0 <= i < j < positions.len() ==> #[trigger] positions[i] < #[trigger] positions[j]
}

proof fn lemma_no_fault(w: WorldView, id: Seq<char>, related: Seq<Entity>)
    requires
        !id_taken(w, id),
        forall|i: int| 0 <= i < related.len() ==> w.tenants.contains_key(#[trigger] related[i]),
        forall|e: Entity| #[trigger] w.tenants.contains_key(e) ==> w.tenants[e] == "local"@,
    ensures
        spawn_fault(w, id, "local"@, related) is None,
{
    lemma_all_known(w, related, 0);
}

proof fn lemma_all_known(w: WorldView, related: Seq<Entity>, from: int)
    requires
        forall|i: int| 0 <= i < related.len() ==> w.tenants.contains_key(#[trigger] related[i]),
    ensures
        first_picked(related, |e: Entity| untenanted(w, e), from) is None,
    decreases related.len() - from,
{
    if 0 <= from < related.len() {
        assert(w.tenants.contains_key(related[from]));
        lemma_all_known(w, related, from + 1);
    }
}

proof fn lemma_tool_added(
    w: WorldView,
    agent: Entity,
    tools: Seq<LocalToolRegistrationView>,
    positions: Seq<int>,
    stores: Seq<LocalStoreRegistrationView>,
    k: int,
)
    requires
        is_local(w, agent, tools, stores, k, 0),
        has_tool_ids(tools, positions),
        0 <= k < tools.len(),
    ensures
        with_local_tool(w, agent, k as nat, tools[k]) is Ok,
        is_local(
            with_local_tool(w, agent, k as nat, tools[k])->Ok_0,
            agent,
            tools,
            stores,
            k + 1,
            0,
        ),
{
    let id = tools[k].id;
    let p = positions[k] as nat;
    lemma_families(p);
    assert(!id_taken(w, id)) by {
        assert forall|e: Entity| #[trigger]
            w.stable_ids.contains_key(e) implies w.stable_ids[e] != id by {
            let known = w.stable_ids[e];
            assert(is_brought(tools, stores, k, 0, known));
            if known == id {
                if exists|j: int| 0 <= j < k && (#[trigger] tools[j]).id == known {
                    let j = choose|j: int| 0 <= j < k && (#[trigger] tools[j]).id == known;
                    assert(positions[j] < positions[k]);
                    lemma_numbered_injective("local-tool-"@, positions[j] as nat, p);
                }
                if exists|j: nat| j < k && #[trigger] numbered("local-tool-grant-"@, j) == known {
                    let j = choose|j: nat|
                        j < k && #[trigger] numbered("local-tool-grant-"@, j) == known;
                    lemma_families(j);
                }
            }
        }
    }
    lemma_no_fault(w, id, Seq::empty());
    let next = w.with_tool(id, "local"@, tools[k].capability);
    let grant = numbered("local-tool-grant-"@, k as nat);
    lemma_families(k as nat);
    assert(!id_taken(next, grant)) by {
        assert forall|e: Entity| #[trigger]
            next.stable_ids.contains_key(e) implies next.stable_ids[e] != grant by {
            if e != w.fresh() {
                let known = w.stable_ids[e];
                assert(w.stable_ids.contains_key(e));
                assert(is_brought(tools, stores, k, 0, known));
                if known == grant {
                    if exists|j: int| 0 <= j < k && (#[trigger] tools[j]).id == known {
                        let j = choose|j: int| 0 <= j < k && (#[trigger] tools[j]).id == known;
                        lemma_families(positions[j] as nat);
                    }
                    if exists|j: nat| j < k && #[trigger] numbered("local-tool-grant-"@, j)
                        == known {
                        let j = choose|j: nat|
                            j < k && #[trigger] numbered("local-tool-grant-"@, j) == known;
                        lemma_numbered_injective("local-tool-grant-"@, j, k as nat);
                    }
                }
            }
        }
    }
    lemma_no_fault(next, grant, seq![agent, w.fresh()]);
    let after = with_local_tool(w, agent, k as nat, tools[k])->Ok_0;
    assert forall|e: Entity| #[trigger] after.stable_ids.contains_key(e) implies is_brought(
        tools,
        stores,
        k + 1,
        0,
        after.stable_ids[e],
    ) by {
        let known = after.stable_ids[e];
        if known == grant {
            assert((k as nat) < k + 1 && numbered("local-tool-grant-"@, k as nat) == known);
        } else if known == id {
            assert(0 <= k < k + 1 && tools[k].id == known);
        } else {
            assert(w.stable_ids.contains_key(e));
            assert(is_brought(tools, stores, k, 0, known));
            if exists|j: int| 0 <= j < k && (#[trigger] tools[j]).id == known {
                let j = choose|j: int| 0 <= j < k && (#[trigger] tools[j]).id == known;
                assert(0 <= j < k + 1 && tools[j].id == known);
            }
            if exists|j: nat| j < k && #[trigger] numbered("local-tool-grant-"@, j) == known {
                let j = choose|j: nat|
                    j < k && #[trigger] numbered("local-tool-grant-"@, j) == known;
                assert(j < k + 1 && numbered("local-tool-grant-"@, j) == known);
            }
        }
    }
}

proof fn lemma_store_added(
    w: WorldView,
    agent: Entity,
    b: LocalModelAgentBuilderView,
    tools: Seq<LocalToolRegistrationView>,
    positions: Seq<int>,
    m: int,
)
    requires
        is_local(w, agent, tools, b.stores, tools.len() as int, m),
        has_tool_ids(tools, positions),
        is_generated(b),
        0 <= m < b.stores.len(),
    ensures
        with_local_store(w, agent, m as nat, b.stores[m]) is Ok,
        is_local(
            with_local_store(w, agent, m as nat, b.stores[m])->Ok_0,
            agent,
            tools,
            b.stores,
            tools.len() as int,
            m + 1,
        ),
{
    let k = tools.len() as int;
    let stores = b.stores;
    let id = stores[m].id;
    assert(has_generated_store_id(b, m));
    lemma_families(m as nat);
    assert(!id_taken(w, id)) by {
        assert forall|e: Entity| #[trigger]
            w.stable_ids.contains_key(e) implies w.stable_ids[e] != id by {
            let known = w.stable_ids[e];
            assert(is_brought(tools, stores, k, m, known));
            if known == id {
                if exists|j: int| 0 <= j < k && (#[trigger] tools[j]).id == known {
                    let j = choose|j: int| 0 <= j < k && (#[trigger] tools[j]).id == known;
                    lemma_families(positions[j] as nat);
                }
                if exists|j: nat| j < k && #[trigger] numbered("local-tool-grant-"@, j) == known {
                    let j = choose|j: nat|
                        j < k && #[trigger] numbered("local-tool-grant-"@, j) == known;
                    lemma_families(j);
                }
                if exists|j: int| 0 <= j < m && (#[trigger] stores[j]).id == known {
                    let j = choose|j: int| 0 <= j < m && (#[trigger] stores[j]).id == known;
                    assert(has_generated_store_id(b, j));
                    lemma_families(j as nat);
                    if id == numbered("local-vector-store-"@, m as nat) {
                        lemma_numbered_injective("local-vector-store-"@, j as nat, m as nat);
                    } else {
                        lemma_numbered_injective("local-conversation-store-"@, j as nat, m as nat);
                    }
                }
                if exists|j: nat| j < m && #[trigger] numbered("local-store-grant-"@, j) == known {
                    let j = choose|j: nat|
                        j < m && #[trigger] numbered("local-store-grant-"@, j) == known;
                    lemma_families(j);
                }
            }
        }
    }
    lemma_no_fault(w, id, Seq::empty());
    let next = w.with_store(id, "local"@, stores[m].capability);
    let grant = numbered("local-store-grant-"@, m as nat);
    assert(!id_taken(next, grant)) by {
        assert forall|e: Entity| #[trigger]
            next.stable_ids.contains_key(e) implies next.stable_ids[e] != grant by {
            if e != w.fresh() {
                let known = w.stable_ids[e];
                assert(w.stable_ids.contains_key(e));
                assert(is_brought(tools, stores, k, m, known));
                if known == grant {
                    if exists|j: int| 0 <= j < k && (#[trigger] tools[j]).id == known {
                        let j = choose|j: int| 0 <= j < k && (#[trigger] tools[j]).id == known;
                        lemma_families(positions[j] as nat);
                    }
                    if exists|j: nat| j < k && #[trigger] numbered("local-tool-grant-"@, j)
                        == known {
                        let j = choose|j: nat|
                            j < k && #[trigger] numbered("local-tool-grant-"@, j) == known;
                        lemma_families(j);
                    }
                    if exists|j: int| 0 <= j < m && (#[trigger] stores[j]).id == known {
                        let j = choose|j: int| 0 <= j < m && (#[trigger] stores[j]).id == known;
                        assert(has_generated_store_id(b, j));
                        lemma_families(j as nat);
                    }
                    if exists|j: nat| j < m && #[trigger] numbered("local-store-grant-"@, j)
                        == known {
                        let j = choose|j: nat|
                            j < m && #[trigger] numbered("local-store-grant-"@, j) == known;
                        lemma_numbered_injective("local-store-grant-"@, j, m as nat);
                    }
                }
            }
        }
    }
    lemma_no_fault(next, grant, seq![agent, w.fresh()]);
    let after = with_local_store(w, agent, m as nat, stores[m])->Ok_0;
    assert forall|e: Entity| #[trigger] after.stable_ids.contains_key(e) implies is_brought(
        tools,
        stores,
        k,
        m + 1,
        after.stable_ids[e],
    ) by {
        let known = after.stable_ids[e];
        if known == grant {
            assert((m as nat) < m + 1 && numbered("local-store-grant-"@, m as nat) == known);
        } else if known == id {
            assert(0 <= m < m + 1 && stores[m].id == known);
        } else {
            assert(w.stable_ids.contains_key(e));
            assert(is_brought(tools, stores, k, m, known));
            if exists|j: int| 0 <= j < m && (#[trigger] stores[j]).id == known {
                let j = choose|j: int| 0 <= j < m && (#[trigger] stores[j]).id == known;
                assert(0 <= j < m + 1 && stores[j].id == known);
            }
            if exists|j: nat| j < m && #[trigger] numbered("local-store-grant-"@, j) == known {
                let j = choose|j: nat|
                    j < m && #[trigger] numbered("local-store-grant-"@, j) == known;
                assert(j < m + 1 && numbered("local-store-grant-"@, j) == known);
            }
        }
    }
}

proof fn lemma_tools_added(
    w: WorldView,
    agent: Entity,
    tools: Seq<LocalToolRegistrationView>,
    positions: Seq<int>,
    stores: Seq<LocalStoreRegistrationView>,
    n: int,
)
    requires
        is_local(w, agent, tools, stores, 0, 0),
        has_tool_ids(tools, positions),
        0 <= n <= tools.len(),
    ensures
        with_local_tools(w, agent, tools, n) is Ok,
        is_local(with_local_tools(w, agent, tools, n)->Ok_0, agent, tools, stores, n, 0),
    decreases n,
{
    if n > 0 {
        lemma_tools_added(w, agent, tools, positions, stores, n - 1);
        lemma_tool_added(
            with_local_tools(w, agent, tools, n - 1)->Ok_0,
            agent,
            tools,
            positions,
            stores,
            n - 1,
        );
    }
}

proof fn lemma_stores_added(
    w: WorldView,
    agent: Entity,
    b: LocalModelAgentBuilderView,
    tools: Seq<LocalToolRegistrationView>,
    positions: Seq<int>,
    n: int,
)
    requires
        is_local(w, agent, tools, b.stores, tools.len() as int, 0),
        has_tool_ids(tools, positions),
        is_generated(b),
        0 <= n <= b.stores.len(),
    ensures
        with_local_stores(w, agent, b.stores, n) is Ok,
        is_local(
            with_local_stores(w, agent, b.stores, n)->Ok_0,
            agent,
            tools,
            b.stores,
            tools.len() as int,
            n,
        ),
    decreases n,
{
    if n > 0 {
        lemma_stores_added(w, agent, b, tools, positions, n - 1);
        lemma_store_added(
            with_local_stores(w, agent, b.stores, n - 1)->Ok_0,
            agent,
            b,
            tools,
            positions,
            n - 1,
        );
    }
}

proof fn lemma_kept_positions(b: LocalModelAgentBuilderView, n: int)
    requires
        0 <= n <= b.tools.len(),
    ensures
        ({
            let all = Seq::new(b.tools.len(), |i: int| i);
            let kept = picked(all.take(n), |i: int| b.kept_position(i));
            &&& forall|i: int| 0 <= i < kept.len() ==> 0 <= #[trigger] kept[i] < n
            &&& forall|i: int, j: int|
                0 <= i < j < kept.len() ==> #[trigger] kept[i] < #[trigger] kept[j]
        }),
    decreases n,
{
    let all = Seq::new(b.tools.len(), |i: int| i);
    let pick = |i: int| b.kept_position(i);
    if n > 0 {
        lemma_kept_positions(b, n - 1);
        lemma_picked_next(all, n - 1, pick);
        let before = picked(all.take(n - 1), pick);
        let kept = picked(all.take(n), pick);
        assert(all[n - 1] == n - 1);
        assert forall|i: int| 0 <= i < kept.len() implies 0 <= #[trigger] kept[i] < n by {
            if i < before.len() {
                assert(kept[i] == before[i]);
            }
        }
        assert forall|i: int, j: int| 0 <= i < j < kept.len() implies #[trigger] kept[i]
            < #[trigger] kept[j] by {
            if j < before.len() {
                assert(kept[i] == before[i] && kept[j] == before[j]);
            } else {
                assert(kept[i] == before[i]);
            }
        }
    } else {
        assert(all.take(0) =~= Seq::empty());
    }
}

/// An agent whose tools and stores have generated ids can be built: the identities that it is
/// built with are all different.
pub proof fn law_generated_agents_can_be_built(w: WorldView, b: LocalModelAgentBuilderView)
    requires
        is_generated(b),
        w.stable_ids == Map::<Entity, Seq<char>>::empty(),
        w.tenants == Map::<Entity, Seq<char>>::empty(),
    ensures
        composed(w, b) is Ok,
{
    let agent = Entity(crate::world::number_after(w.next));
    let tools = b.kept_tools();
    let positions = b.kept_positions();
    let all = Seq::new(b.tools.len(), |i: int| i);
    lemma_kept_positions(b, b.tools.len() as int);
    assert(all.take(b.tools.len() as int) =~= all);
    assert forall|i: int| 0 <= i < tools.len() implies 0 <= positions[i] && (
    #[trigger] tools[i]).id == numbered("local-tool-"@, positions[i] as nat) by {
        assert(tools[i] == b.tools[positions[i]]);
    }
    let start = with_local_agent(w, b);
    assert forall|e: Entity| #[trigger] start.stable_ids.contains_key(e) implies is_brought(
        tools,
        b.stores,
        0,
        0,
        start.stable_ids[e],
    ) by {}
    assert(is_local(start, agent, tools, b.stores, 0, 0));
    lemma_tools_added(start, agent, tools, positions, b.stores, tools.len() as int);
    let next = with_local_tools(start, agent, tools, tools.len() as int)->Ok_0;
    lemma_stores_added(next, agent, b, tools, positions, b.stores.len() as int);
}

/// How a schema is presented changes no identity: settings that are generated stay so.
pub proof fn law_presentation_stays_generated(b: LocalModelAgentBuilderView)
    requires
        is_generated(b),
    ensures
        is_generated(b.presented()),
{
    let next = b.presented();
    assert forall|i: int| 0 <= i < next.stores.len() implies #[trigger] has_generated_store_id(
        next,
        i,
    ) by {
        assert(has_generated_store_id(b, i));
    }
}

} // verus!
