//! Typed effects of extensions.

use vstd::prelude::*;

use crate::column::{Column, Entity};
use crate::effect::{OperationPhase, OperationPhaseView, OperationState, OperationStateView};
use crate::identity::StableId;
use crate::runtime::{has_id, id_taken};
use crate::world::{ControlsView, OperationsView, ResourcesView, World, WorldView};

verus! {

/// A typed asynchronous effect installed by an extension.
///
/// The runtime owns operation identity, generation, phase, cancellation and tenant correlation.
/// The extension owns dispatch and the concrete result.
pub trait EcsEffect {
    /// Fully owned input of an operation.
    type Input;

    /// Successful extension-owned output.
    type Output;

    /// Extension-owned failure value.
    type Error;

    /// Stable diagnostic and persistence binding identifier.
    fn kind() -> (r: String)
        ensures
            r@ == Self::kind_text(),
    ;

    /// What [`EcsEffect::kind`] gives. A verified effect says what that is.
    open spec fn kind_text() -> Seq<char> {
        arbitrary()
    }
}

/// Typed input for an extension effect operation.
pub struct ExtensionEffectInput<E: EcsEffect>(pub E::Input);

impl<E: EcsEffect> DeepView for ExtensionEffectInput<E> {
    type V = E::Input;

    open spec fn deep_view(&self) -> E::Input {
        self.0
    }
}

/// Typed terminal result for an extension effect operation.
pub struct ExtensionEffectResult<E: EcsEffect>(pub Result<E::Output, E::Error>);

impl<E: EcsEffect> DeepView for ExtensionEffectResult<E> {
    type V = Result<E::Output, E::Error>;

    open spec fn deep_view(&self) -> Result<E::Output, E::Error> {
        self.0
    }
}

/// Stable effect kind retained for diagnostics and extension rebinding.
#[derive(Debug, PartialEq, Eq)]
pub struct ExtensionEffectKind(pub String);

impl DeepView for ExtensionEffectKind {
    type V = Seq<char>;

    open spec fn deep_view(&self) -> Seq<char> {
        self.0@
    }
}

/// Failure while applying the common extension-effect lifecycle.
#[derive(Debug, PartialEq, Eq)]
pub enum ExtensionEffectLifecycleError {
    /// The target world has no runtime installed.
    RuntimeNotInstalled,
    /// The owner is not a complete runtime run.
    NotRun,
    /// The stable operation identity is already live.
    DuplicateStableId(String),
    /// The entity is not an operation of the requested extension kind.
    WrongKind(String),
    /// A dispatch or completion attempted an invalid phase transition.
    InvalidPhase,
    /// A late completion targeted an obsolete generation.
    StaleGeneration {
        /// Live operation generation.
        expected: u64,
        /// Completion generation.
        received: u64,
    },
}

/// What an [`ExtensionEffectLifecycleError`] holds.
#[verifier::ext_equal]
pub enum ExtensionEffectLifecycleErrorView {
    RuntimeNotInstalled,
    NotRun,
    DuplicateStableId(Seq<char>),
    WrongKind(Seq<char>),
    InvalidPhase,
    StaleGeneration { expected: u64, received: u64 },
}

impl View for ExtensionEffectLifecycleError {
    type V = ExtensionEffectLifecycleErrorView;

    open spec fn view(&self) -> ExtensionEffectLifecycleErrorView {
        match self {
            ExtensionEffectLifecycleError::RuntimeNotInstalled =>
                ExtensionEffectLifecycleErrorView::RuntimeNotInstalled,
            ExtensionEffectLifecycleError::NotRun => ExtensionEffectLifecycleErrorView::NotRun,
            ExtensionEffectLifecycleError::DuplicateStableId(id) =>
                ExtensionEffectLifecycleErrorView::DuplicateStableId(id@),
            ExtensionEffectLifecycleError::WrongKind(kind) =>
                ExtensionEffectLifecycleErrorView::WrongKind(kind@),
            ExtensionEffectLifecycleError::InvalidPhase =>
                ExtensionEffectLifecycleErrorView::InvalidPhase,
            ExtensionEffectLifecycleError::StaleGeneration { expected, received } =>
                ExtensionEffectLifecycleErrorView::StaleGeneration {
                expected: *expected,
                received: *received,
            },
        }
    }
}

/// The inputs and results of all operations of one extension effect.
pub struct ExtensionEffects<E: EcsEffect> {
    /// Kind of the effect.
    pub kind: String,
    /// Input of each operation.
    pub inputs: Column<ExtensionEffectInput<E>>,
    /// Result of each settled operation.
    pub results: Column<ExtensionEffectResult<E>>,
}

/// Why an operation cannot be made for a run, if it cannot.
pub open spec fn extension_spawn_fault(w: WorldView, run: Entity, id: Seq<char>) -> Option<
    ExtensionEffectLifecycleErrorView,
> {
    if w.resources.runtime is None {
        Some(ExtensionEffectLifecycleErrorView::RuntimeNotInstalled)
    } else if !w.tenants.contains_key(run) || !w.runs.run_of.contains_key(run)
        || !w.runs.states.contains_key(run) || !w.runs.records.contains_key(run) {
        Some(ExtensionEffectLifecycleErrorView::NotRun)
    } else if id_taken(w, id) {
        Some(ExtensionEffectLifecycleErrorView::DuplicateStableId(id))
    } else {
        None
    }
}

/// The world with a prepared operation of an extension. Its tenant is that of its run.
pub open spec fn with_extension_operation(
    w: WorldView,
    run: Entity,
    id: Seq<char>,
    kind: Seq<char>,
) -> WorldView {
    let e = w.fresh();
    WorldView {
        stable_ids: w.stable_ids.insert(e, id),
        tenants: w.tenants.insert(e, w.tenants[run]),
        operations: OperationsView {
            operation_of: w.operations.operation_of.insert(e, run),
            states: w.operations.states.insert(
                e,
                OperationStateView { generation: 0, phase: OperationPhaseView::Prepared },
            ),
            ..w.operations
        },
        controls: ControlsView {
            extension_kinds: w.controls.extension_kinds.insert(e, kind),
            ..w.controls
        },
        resources: ResourcesView { index: w.resources.index.insert(id, e), ..w.resources },
        ..w.reserved()
    }
}

/// Whether an operation is of an extension effect.
pub open spec fn is_extension_operation<E: EcsEffect>(
    w: WorldView,
    effects: ExtensionEffects<E>,
    operation: Entity,
) -> bool {
    &&& w.controls.extension_kinds.contains_key(operation)
    &&& w.controls.extension_kinds[operation] == effects.kind@
    &&& w.operations.states.contains_key(operation)
    &&& effects.inputs@.contains_key(operation)
}

/// Why an operation cannot be claimed, if it cannot.
pub open spec fn extension_dispatch_fault<E: EcsEffect>(
    w: WorldView,
    effects: ExtensionEffects<E>,
    operation: Entity,
) -> Option<ExtensionEffectLifecycleErrorView> {
    if !is_extension_operation(w, effects, operation) {
        Some(ExtensionEffectLifecycleErrorView::WrongKind(effects.kind@))
    } else if !(w.operations.states[operation].phase is Prepared) {
        Some(ExtensionEffectLifecycleErrorView::InvalidPhase)
    } else {
        None
    }
}

/// Why a result cannot be committed, if it cannot.
pub open spec fn extension_settle_fault<E: EcsEffect>(
    w: WorldView,
    effects: ExtensionEffects<E>,
    operation: Entity,
    generation: u64,
) -> Option<ExtensionEffectLifecycleErrorView> {
    if !(w.controls.extension_kinds.contains_key(operation)
        && w.controls.extension_kinds[operation] == effects.kind@
        && w.operations.states.contains_key(operation)) {
        Some(ExtensionEffectLifecycleErrorView::WrongKind(effects.kind@))
    } else if generation != w.operations.states[operation].generation {
        Some(
            ExtensionEffectLifecycleErrorView::StaleGeneration {
                expected: w.operations.states[operation].generation,
                received: generation,
            },
        )
    } else if !(w.operations.states[operation].phase is InFlight) {
        Some(ExtensionEffectLifecycleErrorView::InvalidPhase)
    } else {
        None
    }
}

impl<E: EcsEffect> ExtensionEffects<E> {
    /// No operations yet.
    pub fn new() -> (r: Self)
        ensures
            r.kind@ == E::kind_text(),
            r.inputs@ == Map::<Entity, E::Input>::empty(),
            r.results@ == Map::<Entity, Result<E::Output, E::Error>>::empty(),
    {
        ExtensionEffects { kind: E::kind(), inputs: Column::new(), results: Column::new() }
    }
}

/// Spawns a prepared operation of an extension, owned by a run. Its tenant is that of the run.
pub fn spawn_extension_effect<E: EcsEffect>(
    world: &mut World,
    effects: &mut ExtensionEffects<E>,
    run: Entity,
    id: StableId,
    input: E::Input,
) -> (r: Result<Entity, ExtensionEffectLifecycleError>)
    ensures
        final(effects).kind == old(effects).kind,
        final(effects).results == old(effects).results,
        match r {
            Ok(e) => {
                &&& extension_spawn_fault(old(world)@, run, id@) is None
                &&& e == old(world)@.fresh()
                &&& final(world)@ == with_extension_operation(
                    old(world)@,
                    run,
                    id@,
                    old(effects).kind@,
                )
                &&& final(effects).inputs@ == old(effects).inputs@.insert(e, input)
            },
            Err(error) => {
                &&& extension_spawn_fault(old(world)@, run, id@) == Some(error@)
                &&& final(world)@ == old(world)@
                &&& final(effects).inputs == old(effects).inputs
            },
        },
{
    if world.resources.runtime.is_none() {
        return Err(ExtensionEffectLifecycleError::RuntimeNotInstalled);
    }
    let tenant = match world.tenants.get(run) {
        Some(tenant) => tenant.clone(),
        None => return Err(ExtensionEffectLifecycleError::NotRun),
    };
    if !world.runs.run_of.contains(run) || !world.runs.states.contains(run)
        || !world.runs.records.contains(run) {
        return Err(ExtensionEffectLifecycleError::NotRun);
    }
    if has_id(world, &id) {
        return Err(ExtensionEffectLifecycleError::DuplicateStableId(id.text()));
    }
    let e = world.reserve();
    let name = id.text();
    world.stable_ids.insert(e, id);
    world.tenants.insert(e, tenant);
    world.operations.operation_of.insert(e, run);
    world.operations.states.insert(
        e,
        OperationState { generation: 0, phase: OperationPhase::Prepared },
    );
    world.controls.extension_kinds.insert(e, ExtensionEffectKind(effects.kind.clone()));
    world.resources.index.insert(name, e);
    effects.inputs.insert(e, ExtensionEffectInput(input));
    Ok(e)
}

/// Claims a prepared operation of an extension for its own dispatch. The extension owns the queue
/// budget and the deadline of what it dispatches.
pub fn dispatch_extension_effect<'a, E: EcsEffect>(
    world: &mut World,
    effects: &'a ExtensionEffects<E>,
    operation: Entity,
) -> (r: Result<(u64, &'a E::Input), ExtensionEffectLifecycleError>)
    ensures
        match r {
            Ok((generation, input)) => {
                &&& extension_dispatch_fault(old(world)@, *effects, operation) is None
                &&& generation == old(world)@.operations.states[operation].generation
                &&& *input == effects.inputs@[operation]
                &&& final(world)@ == old(world)@.with_phase(operation, OperationPhaseView::InFlight)
            },
            Err(error) => {
                &&& extension_dispatch_fault(old(world)@, *effects, operation) == Some(error@)
                &&& final(world)@ == old(world)@
            },
        },
{
    let of_kind = match world.controls.extension_kinds.get(operation) {
        Some(kind) => kind.0 == effects.kind,
        None => false,
    };
    if !of_kind {
        return Err(ExtensionEffectLifecycleError::WrongKind(effects.kind.clone()));
    }
    let input = match effects.inputs.get(operation) {
        Some(input) => input,
        None => return Err(ExtensionEffectLifecycleError::WrongKind(effects.kind.clone())),
    };
    let generation: u64 = match world.operations.states.get(operation) {
        Some(state) => {
            if !matches!(state.phase, OperationPhase::Prepared) {
                return Err(ExtensionEffectLifecycleError::InvalidPhase);
            }
            state.generation
        },
        None => return Err(ExtensionEffectLifecycleError::WrongKind(effects.kind.clone())),
    };
    world.set_phase(operation, OperationPhase::InFlight);
    Ok((generation, &input.0))
}

/// Correlates and commits one result of an extension exactly once.
pub fn settle_extension_effect<E: EcsEffect>(
    world: &mut World,
    effects: &mut ExtensionEffects<E>,
    operation: Entity,
    generation: u64,
    result: Result<E::Output, E::Error>,
) -> (r: Result<(), ExtensionEffectLifecycleError>)
    ensures
        final(effects).kind == old(effects).kind,
        final(effects).inputs == old(effects).inputs,
        match r {
            Ok(_) => {
                &&& extension_settle_fault(old(world)@, *old(effects), operation, generation)
                    is None
                &&& final(world)@ == old(world)@.with_phase(
                    operation,
                    OperationPhaseView::ExtensionSettled,
                )
                &&& final(effects).results@ == old(effects).results@.insert(operation, result)
            },
            Err(error) => {
                &&& extension_settle_fault(old(world)@, *old(effects), operation, generation)
                    == Some(error@)
                &&& final(world)@ == old(world)@
                &&& final(effects).results == old(effects).results
            },
        },
{
    let of_kind = match world.controls.extension_kinds.get(operation) {
        Some(kind) => kind.0 == effects.kind,
        None => false,
    };
    if !of_kind {
        return Err(ExtensionEffectLifecycleError::WrongKind(effects.kind.clone()));
    }
    match world.operations.states.get(operation) {
        Some(state) => {
            if generation != state.generation {
                return Err(
                    ExtensionEffectLifecycleError::StaleGeneration {
                        expected: state.generation,
                        received: generation,
                    },
                );
            }
            if !matches!(state.phase, OperationPhase::InFlight) {
                return Err(ExtensionEffectLifecycleError::InvalidPhase);
            }
        },
        None => return Err(ExtensionEffectLifecycleError::WrongKind(effects.kind.clone())),
    }
    world.set_phase(operation, OperationPhase::ExtensionSettled);
    effects.results.insert(operation, ExtensionEffectResult(result));
    Ok(())
}

/// An operation of one kind takes no result of another.
pub proof fn law_extensions_settle_their_own_kind<E: EcsEffect>(
    w: WorldView,
    effects: ExtensionEffects<E>,
    operation: Entity,
    generation: u64,
)
    requires
        effects.kind@ == E::kind_text(),
        w.controls.extension_kinds.contains_key(operation),
        w.controls.extension_kinds[operation] != E::kind_text(),
    ensures
        extension_settle_fault(w, effects, operation, generation) == Some(
            ExtensionEffectLifecycleErrorView::WrongKind(E::kind_text()),
        ),
        extension_dispatch_fault(w, effects, operation) == Some(
            ExtensionEffectLifecycleErrorView::WrongKind(E::kind_text()),
        ),
{
}

/// A result that was committed cannot be committed again, whatever generation it names.
pub proof fn law_extension_settles_once<E: EcsEffect>(
    w: WorldView,
    effects: ExtensionEffects<E>,
    after: ExtensionEffects<E>,
    operation: Entity,
    generation: u64,
    again: u64,
)
    requires
        extension_settle_fault(w, effects, operation, generation) is None,
        after.kind@ == effects.kind@,
    ensures
        extension_settle_fault(
            w.with_phase(operation, OperationPhaseView::ExtensionSettled),
            after,
            operation,
            again,
        ) is Some,
{
}

} // verus!
