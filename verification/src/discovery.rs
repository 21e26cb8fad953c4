//! Reconciliation of discovery results with the tools of their source.

use vstd::prelude::*;

use crate::capability::{
    RetiredCapability, ToolCapability, ToolCapabilityView,
};
use crate::column::{entities_of, Entity};
use crate::effect::{
    CanonicalError, CanonicalErrorView, DiscoveredTool, DiscoveredToolView, EffectOutput,
    EffectOutputView, OperationOutcome, OperationOutcomeView, OperationPhase,
};
use crate::fold::lemma_fold_next;
use crate::identity::{StableId, TenantId};
use crate::run::{DiscoverySourceView, DiscoveryState, DiscoveryStateView};
use crate::sorting::{row_values, sort_rows, sort_values, KeyPart, KeyPartView, KeyView};
use crate::text::{concatenation, decimal, decimal_text, joined};
use crate::world::{DomainView, OperationsView, World, WorldView};

verus! {

/// Definitions are ordered by their order, then their name, then their key.
pub open spec fn definition_row(tool: DiscoveredToolView) -> (KeyView, DiscoveredToolView) {
    (
        seq![
            KeyPartView::Number(tool.order as u64),
            KeyPartView::Text(tool.name),
            KeyPartView::Text(tool.key),
        ],
        tool,
    )
}

/// The definitions in their order.
pub open spec fn ordered_definitions(tools: Seq<DiscoveredToolView>) -> Seq<DiscoveredToolView> {
    row_values(sort_rows(Seq::new(tools.len(), |i: int| definition_row(tools[i]))))
}

/// Whether an earlier definition has the key of the one at `i`.
pub open spec fn key_repeated(tools: Seq<DiscoveredToolView>, i: int) -> bool {
    exists|j: int| 0 <= j < i && (#[trigger] tools[j]).key == tools[i].key
}

/// Key of the first definition at `from` or later whose key an earlier one has too.
pub open spec fn first_repeated_key(tools: Seq<DiscoveredToolView>, from: int) -> Option<Seq<char>>
    decreases tools.len() - from,
{
    if from < 0 || from >= tools.len() {
        None
    } else if key_repeated(tools, from) {
        Some(tools[from].key)
    } else {
        first_repeated_key(tools, from + 1)
    }
}

/// The first definition at `from` or later with the given key.
pub open spec fn definition_with_key(
    tools: Seq<DiscoveredToolView>,
    key: Seq<char>,
    from: int,
) -> Option<DiscoveredToolView>
    decreases tools.len() - from,
{
    if from < 0 || from >= tools.len() {
        None
    } else if tools[from].key == key {
        Some(tools[from])
    } else {
        definition_with_key(tools, key, from + 1)
    }
}

/// The definitions without those with the given key.
pub open spec fn without_key(tools: Seq<DiscoveredToolView>, key: Seq<char>) -> Seq<
    DiscoveredToolView,
>
    decreases tools.len(),
{
    if tools.len() == 0 {
        Seq::empty()
    } else {
        let rest = without_key(tools.drop_last(), key);
        if tools.last().key == key {
            rest
        } else {
            rest.push(tools.last())
        }
    }
}

/// Whether a capability is the version that a definition describes. The argument schema is not
/// compared: a new schema comes with a new revision.
pub open spec fn same_version(tool: ToolCapabilityView, definition: DiscoveredToolView) -> bool {
    &&& tool.name == definition.name
    &&& tool.description == definition.description
    &&& tool.order == definition.order
    &&& tool.revision == definition.revision
}

/// A world in the course of a refresh, with the definitions that have no tool yet.
#[verifier::ext_equal]
pub struct RefreshView {
    pub world: WorldView,
    pub desired: Seq<DiscoveredToolView>,
}

/// Whether a tool is a current version that a source made known.
pub open spec fn current_tool(w: WorldView, source: Entity, e: Entity) -> bool {
    &&& w.domain.discovery_keys.contains_key(e)
    &&& w.domain.discovered_from.contains_key(e)
    &&& w.domain.tools.contains_key(e)
    &&& w.domain.discovered_from[e] == source
    &&& !w.domain.retired.contains_key(e)
}

/// The refresh once a tool was compared: it stays if it is the desired version, and is retired
/// otherwise.
pub open spec fn refresh_tool(
    r: RefreshView,
    source: Entity,
    generation: u64,
    e: Entity,
) -> RefreshView {
    if !current_tool(r.world, source, e) {
        r
    } else {
        let key = r.world.domain.discovery_keys[e].0;
        let found = definition_with_key(r.desired, key, 0);
        if found is Some && same_version(r.world.domain.tools[e], found->0) {
            RefreshView { desired: without_key(r.desired, key), ..r }
        } else {
            RefreshView {
                world: WorldView {
                    domain: DomainView {
                        tools: r.world.domain.tools.insert(
                            e,
                            ToolCapabilityView { retired: true, ..r.world.domain.tools[e] },
                        ),
                        retired: r.world.domain.retired.insert(
                            e,
                            RetiredCapability { generation },
                        ),
                        ..r.world.domain
                    },
                    ..r.world
                },
                ..r
            }
        }
    }
}

/// The stable id of a discovered tool version.
pub open spec fn discovered_id(source: Seq<char>, generation: u64, key: Seq<char>) -> Seq<char> {
    concatenation(
        seq!["discovery/"@, source, "/"@, decimal_text(generation as nat), "/"@, key],
    )
}

/// The world with a tool for each definition.
pub open spec fn with_definitions(
    w: WorldView,
    source: Entity,
    generation: u64,
    definitions: Seq<DiscoveredToolView>,
) -> WorldView
    decreases definitions.len(),
{
    if definitions.len() == 0 {
        w
    } else {
        let rest = with_definitions(w, source, generation, definitions.drop_last());
        rest.with_discovered_tool(
            discovered_id(w.stable_ids[source], generation, definitions.last().key),
            w.tenants[source],
            ToolCapabilityView {
                name: definitions.last().name,
                description: definitions.last().description,
                parameters: definitions.last().parameters,
                order: definitions.last().order,
                revision: definitions.last().revision,
                retired: false,
            },
            source,
            definitions.last().key,
        )
    }
}

/// The world with a discovery source in the given state.
pub open spec fn with_source_state(
    w: WorldView,
    source: Entity,
    state: DiscoveryStateView,
) -> WorldView {
    WorldView {
        domain: DomainView {
            sources: w.domain.sources.insert(
                source,
                DiscoverySourceView { state, ..w.domain.sources[source] },
            ),
            ..w.domain
        },
        ..w
    }
}

/// The world in which the outcome of a discovery operation counts as applied.
pub open spec fn with_applied(w: WorldView, operation: Entity) -> WorldView {
    WorldView {
        operations: OperationsView {
            discovery_applied: w.operations.discovery_applied.insert(operation, true),
            ..w.operations
        },
        ..w
    }
}

/// The message of a discovery result that holds a key twice.
pub open spec fn repeated_key_message(key: Seq<char>) -> Seq<char> {
    concatenation(seq!["duplicate source key `"@, key, "`"@])
}

/// The refresh once all tools of a source were compared.
pub open spec fn compared_tools(
    w: WorldView,
    source: Entity,
    definitions: Seq<DiscoveredToolView>,
) -> RefreshView {
    let generation = w.domain.sources[source].generation;
    entities_of(w.domain.discovery_keys.dom()).fold_left(
        RefreshView { world: w, desired: definitions },
        |r: RefreshView, e: Entity| refresh_tool(r, source, generation, e),
    )
}

/// The world after the definitions of a source were taken over.
pub open spec fn refreshed(
    w: WorldView,
    source: Entity,
    tools: Seq<DiscoveredToolView>,
) -> WorldView {
    let definitions = ordered_definitions(tools);
    match first_repeated_key(definitions, 0) {
        Some(key) => with_source_state(
            w,
            source,
            DiscoveryStateView::Failed(
                CanonicalErrorView::InvalidDiscovery(repeated_key_message(key)),
            ),
        ),
        None => {
            let r = compared_tools(w, source, definitions);
            with_source_state(
                with_definitions(
                    r.world,
                    source,
                    w.domain.sources[source].generation,
                    r.desired,
                ),
                source,
                DiscoveryStateView::Idle,
            )
        },
    }
}

/// Whether a discovery operation is settled and was not applied yet.
pub open spec fn discovery_due(w: WorldView, operation: Entity) -> bool {
    &&& w.operations.discovery_inputs.contains_key(operation)
    &&& w.operations.discovery_operation_of.contains_key(operation)
    &&& w.operations.states.contains_key(operation)
    &&& !w.operations.discovery_applied.contains_key(operation)
    &&& w.operations.states[operation].phase is Settled
}

/// Whether a source waits for exactly this operation.
pub open spec fn awaited_by_source(w: WorldView, operation: Entity, source: Entity) -> bool {
    &&& w.stable_ids.contains_key(source)
    &&& w.tenants.contains_key(source)
    &&& w.domain.sources.contains_key(source)
    &&& w.domain.sources[source].state == (DiscoveryStateView::Refreshing { operation })
    &&& w.domain.sources[source].generation == w.operations.states[operation].generation
}

/// The world after the outcome of one discovery operation was applied, if it is due. An outcome
/// that its source no longer waits for changes nothing else.
pub open spec fn reconcile_discovery_step(w: WorldView, operation: Entity) -> WorldView {
    let source = w.operations.discovery_operation_of[operation];
    if !discovery_due(w, operation) {
        w
    } else if !awaited_by_source(w, operation, source) {
        with_applied(w, operation)
    } else {
        let next = match w.operations.states[operation].phase->Settled_0 {
            OperationOutcomeView::Success(EffectOutputView::Discovery(output)) => refreshed(
                w,
                source,
                output.tools,
            ),
            OperationOutcomeView::Success(_) => with_source_state(
                w,
                source,
                DiscoveryStateView::Failed(CanonicalErrorView::EffectKindMismatch),
            ),
            OperationOutcomeView::Failure(error) => with_source_state(
                w,
                source,
                DiscoveryStateView::Failed(error),
            ),
        };
        with_applied(next, operation).progressed()
    }
}

/// The world after every due discovery operation was applied.
pub open spec fn reconcile_discoveries(w: WorldView) -> WorldView {
    entities_of(w.operations.discovery_inputs.dom()).fold_left(
        w,
        |w: WorldView, e: Entity| reconcile_discovery_step(w, e),
    )
}

fn order_definitions(tools: &Vec<DiscoveredTool>) -> (r: Vec<DiscoveredTool>)
    ensures
        r.deep_view() == ordered_definitions(tools.deep_view()),
{
    let ghost views = tools.deep_view();
    let mut rows: Vec<(Vec<KeyPart>, DiscoveredTool)> = Vec::new();
    let mut i: usize = 0;
    while i < tools.len()
        invariant
            i <= tools@.len(),
            views == tools.deep_view(),
            rows@.len() == i,
            forall|k: int|
                0 <= k < i ==> (#[trigger] rows@[k]).deep_view() == definition_row(views[k]),
        decreases tools@.len() - i,
    {
        let tool = &tools[i];
        let key = vec![
            KeyPart::Number(tool.order as u64),
            KeyPart::Text(tool.name.clone()),
            KeyPart::Text(tool.key.clone()),
        ];
        proof {
            assert(views[i as int] == tool@);
            assert(key.deep_view() =~= definition_row(tool@).0);
        }
        rows.push((key, tool.clone()));
        i = i + 1;
    }
    assert(rows.deep_view() =~= Seq::new(views.len(), |k: int| definition_row(views[k])));
    sort_values(rows)
}

fn find_repeated_key(tools: &Vec<DiscoveredTool>) -> (r: Option<String>)
    ensures
        r.deep_view() == first_repeated_key(tools.deep_view(), 0),
{
    let ghost views = tools.deep_view();
    let mut i: usize = 0;
    while i < tools.len()
        invariant
            i <= tools@.len(),
            views == tools.deep_view(),
            first_repeated_key(views, 0) == first_repeated_key(views, i as int),
        decreases tools@.len() - i,
    {
        let mut j: usize = 0;
        while j < i
            invariant
                j <= i < tools@.len(),
                views == tools.deep_view(),
                first_repeated_key(views, 0) == first_repeated_key(views, i as int),
                forall|k: int| 0 <= k < j ==> (#[trigger] views[k]).key != views[i as int].key,
            decreases i - j,
        {
            assert(views[j as int] == tools@[j as int]@);
            assert(views[i as int] == tools@[i as int]@);
            if tools[j].key == tools[i].key {
                assert(key_repeated(views, i as int));
                return Some(tools[i].key.clone());
            }
            j = j + 1;
        }
        i = i + 1;
    }
    None
}

fn find_definition<'a>(tools: &'a Vec<DiscoveredTool>, key: &String) -> (r: Option<
    &'a DiscoveredTool,
>)
    ensures
        match r {
            Some(tool) => definition_with_key(tools.deep_view(), key@, 0) == Some(tool@),
            None => definition_with_key(tools.deep_view(), key@, 0) is None,
        },
{
    let ghost views = tools.deep_view();
    let mut i: usize = 0;
    while i < tools.len()
        invariant
            i <= tools@.len(),
            views == tools.deep_view(),
            definition_with_key(views, key@, 0) == definition_with_key(views, key@, i as int),
        decreases tools@.len() - i,
    {
        assert(views[i as int] == tools@[i as int]@);
        if tools[i].key == *key {
            return Some(&tools[i]);
        }
        i = i + 1;
    }
    None
}

fn drop_key(tools: &Vec<DiscoveredTool>, key: &String) -> (r: Vec<DiscoveredTool>)
    ensures
        r.deep_view() == without_key(tools.deep_view(), key@),
{
    let ghost views = tools.deep_view();
    let mut r: Vec<DiscoveredTool> = Vec::new();
    let mut i: usize = 0;
    assert(views.take(0) =~= Seq::empty());
    assert(r.deep_view() =~= Seq::empty());
    while i < tools.len()
        invariant
            i <= tools@.len(),
            views == tools.deep_view(),
            r.deep_view() == without_key(views.take(i as int), key@),
        decreases tools@.len() - i,
    {
        proof {
            assert(views.take(i + 1).drop_last() =~= views.take(i as int));
            assert(views.take(i + 1).last() == tools@[i as int]@);
        }
        let ghost before = r.deep_view();
        if tools[i].key != *key {
            r.push(tools[i].clone());
            assert(r.deep_view() =~= before.push(tools@[i as int]@));
        }
        i = i + 1;
    }
    assert(views.take(i as int) =~= views);
    r
}

fn compare_tool(
    world: &mut World,
    desired: &mut Vec<DiscoveredTool>,
    source: Entity,
    generation: u64,
    e: Entity,
)
    ensures
        (RefreshView { world: final(world)@, desired: final(desired).deep_view() })
            == refresh_tool(
            (RefreshView { world: old(world)@, desired: old(desired).deep_view() }),
            source,
            generation,
            e,
        ),
{
    match world.domain.discovered_from.get(e) {
        Some(from) => {
            if *from != source {
                return;
            }
        },
        None => {
            return;
        },
    }
    if world.domain.retired.contains(e) {
        return;
    }
    let key = match world.domain.discovery_keys.get(e) {
        Some(key) => key.0.clone(),
        None => {
            return;
        },
    };
    let mut tool = match world.domain.tools.get(e) {
        Some(tool) => tool.clone(),
        None => {
            return;
        },
    };
    let unchanged = match find_definition(desired, &key) {
        Some(definition) => tool.name == definition.name && tool.description
            == definition.description && tool.order == definition.order && tool.revision
            == definition.revision,
        None => false,
    };
    if unchanged {
        *desired = drop_key(desired, &key);
        return;
    }
    tool.retired = true;
    world.domain.tools.insert(e, tool);
    world.domain.retired.insert(e, RetiredCapability { generation });
}

fn spawn_definitions(
    world: &mut World,
    source: Entity,
    source_id: &StableId,
    tenant: &TenantId,
    generation: u64,
    definitions: &Vec<DiscoveredTool>,
)
    requires
        old(world)@.stable_ids[source] == source_id@,
        old(world)@.tenants[source] == tenant@,
    ensures
        final(world)@ == with_definitions(
            old(world)@,
            source,
            generation,
            definitions.deep_view(),
        ),
{
    let ghost start = world@;
    let ghost views = definitions.deep_view();
    let number = decimal(generation);
    let mut i: usize = 0;
    assert(views.take(0) =~= Seq::empty());
    while i < definitions.len()
        invariant
            i <= definitions@.len(),
            views == definitions.deep_view(),
            start.stable_ids[source] == source_id@,
            start.tenants[source] == tenant@,
            number@ == decimal_text(generation as nat),
            world@ == with_definitions(start, source, generation, views.take(i as int)),
        decreases definitions@.len() - i,
    {
        let definition = &definitions[i];
        let pieces = vec![
            "discovery/",
            source_id.as_str(),
            "/",
            number.as_str(),
            "/",
            definition.key.as_str(),
        ];
        proof {
            assert(views.take(i + 1).drop_last() =~= views.take(i as int));
            assert(views.take(i + 1).last() == definition@);
            assert(Seq::new(pieces@.len(), |k: int| pieces@[k]@) =~= seq![
                "discovery/"@,
                source_id@,
                "/"@,
                number@,
                "/"@,
                definition.key@,
            ]);
        }
        let _ = world.spawn_discovered_tool(
            StableId::generated(joined(pieces)),
            tenant.clone(),
            ToolCapability {
                name: definition.name.clone(),
                description: definition.description.clone(),
                parameters: definition.parameters.clone(),
                order: definition.order,
                revision: definition.revision,
                retired: false,
            },
            source,
            definition.key.clone(),
        );
        i = i + 1;
    }
    assert(views.take(i as int) =~= views);
}

fn set_source_state(world: &mut World, source: Entity, state: DiscoveryState)
    requires
        old(world)@.domain.sources.contains_key(source),
    ensures
        final(world)@ == with_source_state(old(world)@, source, state@),
{
    if let Some(mut record) = world.domain.sources.remove(source) {
        record.state = state;
        world.domain.sources.insert(source, record);
    }
}

/// Comparing tools leaves identities, tenants and sources as they are.
proof fn lemma_compared_tools(
    r: RefreshView,
    source: Entity,
    generation: u64,
    ids: Seq<Entity>,
)
    ensures
        ({
            let step = |r: RefreshView, e: Entity| refresh_tool(r, source, generation, e);
            let after = ids.fold_left(r, step);
            &&& after.world.stable_ids == r.world.stable_ids
            &&& after.world.tenants == r.world.tenants
            &&& after.world.domain.sources == r.world.domain.sources
        }),
    decreases ids.len(),
{
    if ids.len() > 0 {
        lemma_compared_tools(r, source, generation, ids.drop_last());
    }
}

/// Making tools leaves sources as they are.
proof fn lemma_definitions_keep_sources(
    w: WorldView,
    source: Entity,
    generation: u64,
    definitions: Seq<DiscoveredToolView>,
)
    ensures
        with_definitions(w, source, generation, definitions).domain.sources == w.domain.sources,
    decreases definitions.len(),
{
    if definitions.len() > 0 {
        lemma_definitions_keep_sources(w, source, generation, definitions.drop_last());
    }
}

fn refresh_source(
    world: &mut World,
    source: Entity,
    source_id: &StableId,
    tenant: &TenantId,
    generation: u64,
    tools: &Vec<DiscoveredTool>,
)
    requires
        old(world)@.stable_ids[source] == source_id@,
        old(world)@.tenants[source] == tenant@,
        old(world)@.domain.sources.contains_key(source),
        old(world)@.domain.sources[source].generation == generation,
    ensures
        final(world)@ == refreshed(old(world)@, source, tools.deep_view()),
{
    broadcast use crate::fold::group_fold;

    let mut desired = order_definitions(tools);
    if let Some(key) = find_repeated_key(&desired) {
        let pieces = vec!["duplicate source key `", key.as_str(), "`"];
        proof {
            assert(Seq::new(pieces@.len(), |k: int| pieces@[k]@) =~= seq![
                "duplicate source key `"@,
                key@,
                "`"@,
            ]);
        }
        set_source_state(
            world,
            source,
            DiscoveryState::Failed(CanonicalError::InvalidDiscovery(joined(pieces))),
        );
        return;
    }
    let ids = world.domain.discovery_keys.entities();
    let ghost start = RefreshView { world: world@, desired: desired.deep_view() };
    let ghost step = |r: RefreshView, e: Entity| refresh_tool(r, source, generation, e);
    let mut i: usize = 0;
    while i < ids.len()
        invariant
            i <= ids@.len(),
            step == (|r: RefreshView, e: Entity| refresh_tool(r, source, generation, e)),
            (RefreshView { world: world@, desired: desired.deep_view() }) == ids@.take(
                i as int,
            ).fold_left(start, step),
        decreases ids@.len() - i,
    {
        proof {
            lemma_fold_next(ids@, i as int, start, step);
        }
        compare_tool(world, &mut desired, source, generation, ids[i]);
        i = i + 1;
    }
    proof {
        lemma_compared_tools(start, source, generation, ids@);
        lemma_definitions_keep_sources(world@, source, generation, desired.deep_view());
    }
    spawn_definitions(world, source, source_id, tenant, generation, &desired);
    set_source_state(world, source, DiscoveryState::Idle);
}

/// Applies the outcome of one discovery operation, if it is due.
pub fn reconcile_discovery_operation(world: &mut World, operation: Entity)
    ensures
        final(world)@ == reconcile_discovery_step(old(world)@, operation),
{
    if !world.operations.discovery_inputs.contains(operation)
        || world.operations.discovery_applied.contains(operation) {
        return;
    }
    let source = match world.operations.discovery_operation_of.get(operation) {
        Some(source) => *source,
        None => {
            return;
        },
    };
    let generation: u64;
    let outcome: OperationOutcome;
    match world.operations.states.get(operation) {
        Some(state) => match &state.phase {
            OperationPhase::Settled(settled) => {
                generation = state.generation;
                outcome = settled.clone();
            },
            _ => {
                return;
            },
        },
        None => {
            return;
        },
    }
    let awaited = match world.domain.sources.get(source) {
        Some(record) => match &record.state {
            DiscoveryState::Refreshing { operation: waiting } => *waiting == operation
                && record.generation == generation,
            _ => false,
        },
        None => false,
    };
    let source_id = match world.stable_ids.get(source) {
        Some(id) => Some(id.clone()),
        None => None,
    };
    let tenant = match world.tenants.get(source) {
        Some(tenant) => Some(tenant.clone()),
        None => None,
    };
    match (source_id, tenant) {
        (Some(source_id), Some(tenant)) => {
            if awaited {
                match &outcome {
                    OperationOutcome::Success(EffectOutput::Discovery(output)) => {
                        refresh_source(
                            world,
                            source,
                            &source_id,
                            &tenant,
                            generation,
                            &output.tools,
                        );
                    },
                    OperationOutcome::Success(_) => {
                        set_source_state(
                            world,
                            source,
                            DiscoveryState::Failed(CanonicalError::EffectKindMismatch),
                        );
                    },
                    OperationOutcome::Failure(error) => {
                        set_source_state(world, source, DiscoveryState::Failed(error.clone()));
                    },
                }
                world.operations.discovery_applied.insert(operation, true);
                world.mark_progress();
                return;
            }
        },
        _ => {},
    }
    world.operations.discovery_applied.insert(operation, true);
}

/// Applies the outcome of every due discovery operation.
pub fn reconcile_discovery_operations(world: &mut World)
    ensures
        final(world)@ == reconcile_discoveries(old(world)@),
{
    broadcast use crate::fold::group_fold;

    let ids = world.operations.discovery_inputs.entities();
    let ghost start = world@;
    let ghost step = |w: WorldView, e: Entity| reconcile_discovery_step(w, e);
    let mut i: usize = 0;
    while i < ids.len()
        invariant
            i <= ids@.len(),
            step == (|w: WorldView, e: Entity| reconcile_discovery_step(w, e)),
            world@ == ids@.take(i as int).fold_left(start, step),
        decreases ids@.len() - i,
    {
        proof {
            lemma_fold_next(ids@, i as int, start, step);
        }
        reconcile_discovery_operation(world, ids[i]);
        i = i + 1;
    }
}

} // verus!
