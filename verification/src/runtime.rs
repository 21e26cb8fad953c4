//! Installation of the runtime and its standalone owner.

use vstd::prelude::*;

use crate::capability::{
    Agent, ModelCapability, OutputRequirement, Policy, RetrievalRequirement, StoreCapability,
    StoreGrant, ToolCapability, ToolGrant,
};
use crate::column::{sources_of, Entity};
use crate::commit_model::Reasons;
use crate::effect::TranscriptEntry;
use crate::fold::{first_picked, lemma_picked_next, picked};
use crate::handle::{EffectIo, EffectIoView, RuntimeHandle, RuntimeHandleView};
use crate::identity::{StableId, TenantId};
use crate::persisted::DomainSnapshot;
use crate::queue::{Queue, QueueView};
use crate::restore::{restore_domain, restore_fault, restored, restored_entities, RestoredEntities};
use crate::run::{
    AgentHandle, CommittedTurn, CommittedTurnView, DiscoveryHandle, DiscoverySource,
    DiscoverySourceView, DiscoveryState, DiscoveryStateView, DriveError, InstallError,
    PendingRunHandle, PendingRunHandleView, PersistenceError, PersistenceErrorView, RunHandle,
    RunRecordView, RunState, RuntimeConfig, RuntimeInvariantError, RuntimeMetrics, SpawnError,
    SpawnErrorView, SubmitError, SubmitErrorView,
};
use crate::schedule::{
    after_passes, driven, first_stall, law_drive_is_bounded, lemma_own_passes, run_schedule,
    schedule_pass, stalls_at, PassReasons, ScheduleView,
};
use crate::snapshot::{domain_records, first_stale, snapshot_domain};
use crate::sorting::{row_values, sort_rows, sort_values, KeyPart, KeyPartView, KeyView};
use crate::text_map::TextMap;
use crate::world::{is_terminal_state, terminal_state, ResourcesView, World, WorldView};

verus! {

/// Whether some entity already has a stable id.
pub open spec fn id_taken(w: WorldView, id: Seq<char>) -> bool {
    exists|e: Entity| #[trigger] w.stable_ids.contains_key(e) && w.stable_ids[e] == id
}

/// Why an entity with the given id and tenant may not be related to the given entities, if it
/// may not: the id must be new, and every related entity must be there and of the same tenant.
pub open spec fn spawn_fault(
    w: WorldView,
    id: Seq<char>,
    tenant: Seq<char>,
    related: Seq<Entity>,
) -> Option<SpawnErrorView> {
    if id_taken(w, id) {
        Some(SpawnErrorView::DuplicateStableId(id))
    } else if let Some(e) = first_picked(related, |e: Entity| untenanted(w, e), 0) {
        Some(SpawnErrorView::StaleEntity(e))
    } else if exists|i: int|
        0 <= i < related.len() && w.tenants[#[trigger] related[i]] != tenant {
        Some(SpawnErrorView::TenantMismatch)
    } else {
        None
    }
}

/// An entity that belongs to no tenant.
pub open spec fn untenanted(w: WorldView, e: Entity) -> Option<Entity> {
    if w.tenants.contains_key(e) {
        None
    } else {
        Some(e)
    }
}

/// Whether some entity of the world has the id.
pub fn has_id(world: &World, id: &StableId) -> (r: bool)
    ensures
        r == id_taken(world@, id@),
{
    let ids = world.stable_ids.entities();
    let mut i: usize = 0;
    while i < ids.len()
        invariant
            0 <= i <= ids@.len(),
            ids@.to_set() == world@.stable_ids.dom(),
            forall|k: int|
                0 <= k < i ==> !(world@.stable_ids.contains_key(#[trigger] ids@[k])
                    && world@.stable_ids[ids@[k]] == id@),
        decreases ids@.len() - i,
    {
        if let Some(existing) = world.stable_ids.get(ids[i]) {
            if existing.same(id) {
                assert(world@.stable_ids.contains_key(ids@[i as int]));
                return true;
            }
        }
        i = i + 1;
    }
    proof {
        assert forall|e: Entity| #[trigger]
            world@.stable_ids.contains_key(e) implies world@.stable_ids[e] != id@ by {
            assert(ids@.to_set().contains(e));
            assert(ids@.contains(e));
        }
    }
    false
}

fn ensure_unique_id(world: &World, id: &StableId) -> (r: Result<(), SpawnError>)
    ensures
        match r {
            Ok(_) => !id_taken(world@, id@),
            Err(error) => id_taken(world@, id@) && error@ == SpawnErrorView::DuplicateStableId(id@),
        },
{
    if has_id(world, id) {
        return Err(SpawnError::DuplicateStableId(id.text()));
    }
    Ok(())
}

/// Checks the id of a new entity and the entities it is to be related to.
fn check_related(world: &World, id: &StableId, tenant: &TenantId, related: &Vec<Entity>) -> (r:
    Result<(), SpawnError>)
    ensures
        match r {
            Ok(_) => spawn_fault(world@, id@, tenant@, related@) is None,
            Err(error) => spawn_fault(world@, id@, tenant@, related@) == Some(error@),
        },
{
    if let Err(error) = ensure_unique_id(world, id) {
        return Err(error);
    }
    let ghost pick = |e: Entity| untenanted(world@, e);
    let mut i: usize = 0;
    while i < related.len()
        invariant
            0 <= i <= related@.len(),
            pick == (|e: Entity| untenanted(world@, e)),
            !id_taken(world@, id@),
            first_picked(related@, pick, 0) == first_picked(related@, pick, i as int),
        decreases related@.len() - i,
    {
        if !world.tenants.contains(related[i]) {
            return Err(SpawnError::StaleEntity(related[i]));
        }
        i = i + 1;
    }
    proof {
        lemma_all_tenanted(world@, related@, 0);
    }
    let mut j: usize = 0;
    while j < related.len()
        invariant
            0 <= j <= related@.len(),
            !id_taken(world@, id@),
            first_picked(related@, |e: Entity| untenanted(world@, e), 0) is None,
            forall|k: int|
                0 <= k < related@.len() ==> world@.tenants.contains_key(#[trigger] related@[k]),
            forall|k: int| 0 <= k < j ==> world@.tenants[#[trigger] related@[k]] == tenant@,
        decreases related@.len() - j,
    {
        assert(world@.tenants.contains_key(related@[j as int]));
        if let Some(existing) = world.tenants.get(related[j]) {
            if !existing.same(tenant) {
                return Err(SpawnError::TenantMismatch);
            }
        }
        j = j + 1;
    }
    Ok(())
}

proof fn lemma_all_tenanted(w: WorldView, related: Seq<Entity>, from: int)
    requires
        0 <= from,
        first_picked(related, |e: Entity| untenanted(w, e), from) is None,
    ensures
        forall|k: int| from <= k < related.len() ==> w.tenants.contains_key(#[trigger] related[k]),
    decreases related.len() - from,
{
    if from < related.len() {
        lemma_all_tenanted(w, related, from + 1);
    }
}

/// The run that a submitted prompt became, as of the last reconciliation.
pub open spec fn indexed_run(w: WorldView, pending: PendingRunHandleView) -> Option<RunHandle> {
    if w.resources.index.contains_key(pending.stable_id) {
        Some(
            RunHandle {
                runtime_id: pending.runtime_id,
                entity: w.resources.index[pending.stable_id],
            },
        )
    } else {
        None
    }
}

/// The world after the state of a run was read: a terminal outcome is thereby observed.
pub open spec fn with_observation(w: WorldView, run: Entity) -> WorldView {
    if w.runs.states.contains_key(run) && terminal_state(w.runs.states[run])
        && w.runs.records.contains_key(run) {
        w.with_run_record(run, (RunRecordView { observed: true, ..w.runs.records[run] }))
    } else {
        w
    }
}

fn lookup_run(world: &World, pending: &PendingRunHandle) -> (r: Option<RunHandle>)
    ensures
        r == indexed_run(world@, pending@),
{
    match world.resources.index.get(pending.stable_id.key()) {
        Some(entity) => Some(RunHandle { runtime_id: pending.runtime_id, entity: *entity }),
        None => None,
    }
}

fn read_run(world: &mut World, run: Entity) -> (r: Option<RunState>)
    ensures
        final(world)@ == with_observation(old(world)@, run),
        match r {
            Some(state) => old(world)@.runs.states.contains_key(run) && state@
                == old(world)@.runs.states[run],
            None => !old(world)@.runs.states.contains_key(run),
        },
{
    let state = match world.runs.states.get(run) {
        Some(state) => state.clone(),
        None => return None,
    };
    if is_terminal_state(&state) {
        let updated = match world.runs.records.get(run) {
            Some(record) => {
                let mut record = record.clone();
                record.observed = true;
                Some(record)
            },
            None => None,
        };
        if let Some(record) = updated {
            world.set_run_record(run, record);
        }
    }
    Some(state)
}

/// Resources returned when the runtime is installed into an existing world.
#[derive(Debug)]
pub struct InstalledRuntime {
    /// Hosted command facade.
    pub handle: RuntimeHandle,
    /// External executor interface.
    pub effects: EffectIo,
}

/// Why a runtime may not be installed, if it may not.
pub open spec fn install_fault(w: WorldView, config: RuntimeConfig) -> Option<InstallError> {
    if w.resources.runtime is Some {
        Some(InstallError::AlreadyInstalled)
    } else if config.command_capacity == 0 || config.effect_capacity == 0
        || config.completion_capacity == 0 || config.subscriber_capacity == 0
        || config.progress_limit == 0 || config.effect_timeout_ticks == 0 {
        Some(InstallError::InvalidCapacity)
    } else {
        None
    }
}

/// The world after a runtime was installed into it.
pub open spec fn with_runtime(w: WorldView, config: RuntimeConfig, runtime_id: u64) -> WorldView {
    WorldView {
        resources: ResourcesView {
            runtime: Some(runtime_id),
            epoch: 0,
            tick: 0,
            effect_timeout_ticks: config.effect_timeout_ticks,
            index: Map::empty(),
            violations: Seq::empty(),
            metrics: RuntimeMetrics::zero(),
            messages: Seq::empty(),
        },
        ..w
    }
}

/// The command facade of a new runtime.
pub open spec fn new_handle(config: RuntimeConfig, runtime_id: u64) -> RuntimeHandleView {
    RuntimeHandleView {
        runtime_id,
        commands: QueueView::empty(config.command_capacity),
        observations: Seq::empty(),
        next_run_id: 1,
        subscriber_capacity: config.subscriber_capacity,
        streams: Seq::empty(),
        wakes: 0,
    }
}

/// The effect boundary of a new runtime.
pub open spec fn new_effects(config: RuntimeConfig) -> EffectIoView {
    EffectIoView {
        requests: QueueView::empty(config.effect_capacity),
        cancellations: QueueView::empty(config.effect_capacity),
        ingress: QueueView::empty(config.completion_capacity),
        wakes: 0,
    }
}

/// Installs the runtime into an existing world. The number of the runtime tells its handles from
/// those of any other runtime.
pub fn install_runtime(world: &mut World, config: RuntimeConfig, runtime_id: u64) -> (r: Result<
    InstalledRuntime,
    InstallError,
>)
    ensures
        match r {
            Ok(installed) => {
                &&& install_fault(old(world)@, config) is None
                &&& final(world)@ == with_runtime(old(world)@, config, runtime_id)
                &&& installed.handle@ == new_handle(config, runtime_id)
                &&& installed.effects@ == new_effects(config)
            },
            Err(error) => install_fault(old(world)@, config) == Some(error) && final(world)@ == old(
                world,
            )@,
        },
{
    if world.resources.runtime.is_some() {
        return Err(InstallError::AlreadyInstalled);
    }
    if config.command_capacity == 0 || config.effect_capacity == 0 || config.completion_capacity
        == 0 || config.subscriber_capacity == 0 || config.progress_limit == 0
        || config.effect_timeout_ticks == 0 {
        return Err(InstallError::InvalidCapacity);
    }
    world.resources.runtime = Some(runtime_id);
    world.resources.epoch = 0;
    world.resources.tick = 0;
    world.resources.effect_timeout_ticks = config.effect_timeout_ticks;
    world.resources.index = TextMap::new();
    world.resources.violations = Vec::new();
    world.resources.metrics = RuntimeMetrics::default();
    world.resources.messages = Vec::new();
    proof {
        assert(world.resources.violations.deep_view() =~= Seq::empty());
        assert(world.resources.messages.deep_view() =~= Seq::empty());
    }
    let handle = RuntimeHandle {
        runtime_id,
        commands: Queue::new(config.command_capacity),
        observations: Vec::new(),
        next_run_id: 1,
        subscriber_capacity: config.subscriber_capacity,
        streams: Vec::new(),
        wakes: 0,
    };
    assert(handle.observations.deep_view() =~= Seq::empty());
    assert(handle.streams.deep_view() =~= Seq::empty());
    let effects = EffectIo {
        requests: Queue::new(config.effect_capacity),
        cancellations: Queue::new(config.effect_capacity),
        ingress: Queue::new(config.completion_capacity),
        wakes: 0,
    };
    Ok(InstalledRuntime { handle, effects })
}

impl InstalledRuntime {
    /// Whether a world is the one that this runtime was installed into.
    pub open spec fn owns(&self, w: WorldView) -> bool {
        w.resources.runtime == Some(self.handle@.runtime_id)
    }

    fn validate_world(&self, world: &World) -> (r: bool)
        ensures
            r == self.owns(world@),
    {
        match world.resources.runtime {
            Some(id) => id == self.handle.runtime_id,
            None => false,
        }
    }

    /// Spawns a model capability into the existing host world.
    pub fn spawn_model(
        &self,
        world: &mut World,
        id: StableId,
        tenant: TenantId,
        model: ModelCapability,
    ) -> (r: Result<Entity, SpawnError>)
        ensures
            match r {
                Ok(e) => {
                    &&& self.owns(old(world)@)
                    &&& spawn_fault(old(world)@, id@, tenant@, Seq::empty()) is None
                    &&& e == old(world)@.fresh()
                    &&& final(world)@ == old(world)@.with_model(id@, tenant@, model@)
                },
                Err(error) => {
                    &&& final(world)@ == old(world)@
                    &&& if self.owns(old(world)@) {
                        spawn_fault(old(world)@, id@, tenant@, Seq::empty()) == Some(error@)
                    } else {
                        error@ == SpawnErrorView::ForeignRuntime
                    }
                },
            },
    {
        if !self.validate_world(world) {
            return Err(SpawnError::ForeignRuntime);
        }
        if let Err(error) = check_related(world, &id, &tenant, &Vec::new()) {
            return Err(error);
        }
        Ok(world.spawn_model(id, tenant, model))
    }

    /// Spawns an agent and returns a handle scoped to this installed runtime.
    pub fn spawn_agent(
        &self,
        world: &mut World,
        id: StableId,
        tenant: TenantId,
        agent: Agent,
        model: Entity,
    ) -> (r: Result<AgentHandle, SpawnError>)
        ensures
            match r {
                Ok(handle) => {
                    &&& self.owns(old(world)@)
                    &&& spawn_fault(old(world)@, id@, tenant@, seq![model]) is None
                    &&& handle.runtime_id == self.handle@.runtime_id
                    &&& handle.entity == old(world)@.fresh()
                    &&& final(world)@ == old(world)@.with_agent(id@, tenant@, agent@, model)
                },
                Err(error) => {
                    &&& final(world)@ == old(world)@
                    &&& if self.owns(old(world)@) {
                        spawn_fault(old(world)@, id@, tenant@, seq![model]) == Some(error@)
                    } else {
                        error@ == SpawnErrorView::ForeignRuntime
                    }
                },
            },
    {
        if !self.validate_world(world) {
            return Err(SpawnError::ForeignRuntime);
        }
        let related = vec![model];
        assert(related@ =~= seq![model]);
        if let Err(error) = check_related(world, &id, &tenant, &related) {
            return Err(error);
        }
        let entity = world.spawn_agent(id, tenant, agent, model);
        Ok(AgentHandle { runtime_id: self.handle.runtime_id, entity })
    }

    /// Resolves a submitted run after the host has run a pass of the schedule.
    pub fn resolve_run(&self, world: &World, pending: &PendingRunHandle) -> (r: Result<
        Option<RunHandle>,
        SubmitError,
    >)
        ensures
            match r {
                Ok(run) => {
                    &&& pending@.runtime_id == self.handle@.runtime_id
                    &&& self.owns(world@)
                    &&& run == indexed_run(world@, pending@)
                },
                Err(error) => {
                    &&& pending@.runtime_id != self.handle@.runtime_id || !self.owns(world@)
                    &&& error@ == SubmitErrorView::ForeignRuntime
                },
            },
    {
        if pending.runtime_id != self.handle.runtime_id || !self.validate_world(world) {
            return Err(SubmitError::ForeignRuntime);
        }
        Ok(lookup_run(world, pending))
    }

    /// Clones a run state and acknowledges terminal observation in a host world.
    pub fn observe_run(&self, world: &mut World, run: RunHandle) -> (r: Result<
        Option<RunState>,
        SubmitError,
    >)
        ensures
            match r {
                Ok(state) => {
                    &&& run.runtime_id == self.handle@.runtime_id
                    &&& self.owns(old(world)@)
                    &&& final(world)@ == with_observation(old(world)@, run.entity)
                    &&& match state {
                        Some(state) => old(world)@.runs.states.contains_key(run.entity) && state@
                            == old(world)@.runs.states[run.entity],
                        None => !old(world)@.runs.states.contains_key(run.entity),
                    }
                },
                Err(error) => {
                    &&& run.runtime_id != self.handle@.runtime_id || !self.owns(old(world)@)
                    &&& error@ == SubmitErrorView::ForeignRuntime
                    &&& final(world)@ == old(world)@
                },
            },
    {
        if run.runtime_id != self.handle.runtime_id || !self.validate_world(world) {
            return Err(SubmitError::ForeignRuntime);
        }
        Ok(read_run(world, run.entity))
    }

    /// Runs one pass of the schedule over the host world.
    pub fn run_schedule(&mut self, world: &mut World)
        ensures
            exists|reasons: Reasons|
                (ScheduleView {
                    world: final(world)@,
                    handle: final(self).handle@,
                    effects: final(self).effects@,
                }) == #[trigger] schedule_pass(
                    (ScheduleView {
                        world: old(world)@,
                        handle: old(self).handle@,
                        effects: old(self).effects@,
                    }),
                    reasons,
                ),
    {
        run_schedule(world, &mut self.handle, &mut self.effects)
    }
}

/// Convenience owner for a standalone authoritative world.
#[derive(Debug)]
pub struct Runtime {
    /// The world.
    pub world: World,
    /// Hosted command facade.
    pub handle: RuntimeHandle,
    /// External side of the effect boundary.
    pub effects: EffectIo,
    /// Passes that one drive of the runtime may take.
    pub progress_limit: usize,
}

impl View for Runtime {
    type V = ScheduleView;

    open spec fn view(&self) -> ScheduleView {
        ScheduleView { world: self.world@, handle: self.handle@, effects: self.effects@ }
    }
}

/// A committed turn with the key it is ordered by.
pub open spec fn turn_row(w: WorldView, e: Entity) -> Option<(KeyView, CommittedTurnView)> {
    if w.runs.turns.contains_key(e) {
        Some((seq![KeyPartView::Number(w.runs.turns[e].index as u64)], w.runs.turns[e]))
    } else {
        None
    }
}

/// The committed turns of a run in the order of their index.
pub open spec fn turns_of_run(w: WorldView, run: Entity) -> Seq<CommittedTurnView> {
    row_values(
        sort_rows(picked(sources_of(w.runs.turn_of, run), |e: Entity| turn_row(w, e))),
    )
}

impl Runtime {
    /// The runtime with another world.
    pub open spec fn same_but_world(&self, before: &Runtime, world: WorldView) -> bool {
        &&& self@ == (ScheduleView { world, ..before@ })
        &&& self.progress_limit == before.progress_limit
    }

    /// Creates a standalone runtime using the same installer available to hosts.
    pub fn new(config: RuntimeConfig, runtime_id: u64) -> (r: Result<Self, InstallError>)
        ensures
            match r {
                Ok(runtime) => {
                    &&& install_fault(WorldView::empty(), config) is None
                    &&& runtime@ == (ScheduleView {
                        world: with_runtime(WorldView::empty(), config, runtime_id),
                        handle: new_handle(config, runtime_id),
                        effects: new_effects(config),
                    })
                    &&& runtime.progress_limit == config.progress_limit
                },
                Err(error) => install_fault(WorldView::empty(), config) == Some(error),
            },
    {
        let mut world = World::new();
        match install_runtime(&mut world, config, runtime_id) {
            Ok(installed) => Ok(
                Runtime {
                    world,
                    handle: installed.handle,
                    effects: installed.effects,
                    progress_limit: config.progress_limit,
                },
            ),
            Err(error) => Err(error),
        }
    }

    /// Returns the hosted command facade.
    pub fn handle(&mut self) -> (r: &mut RuntimeHandle)
        ensures
            *r == old(self).handle,
            *final(self) == (Runtime { handle: *final(r), ..*old(self) }),
    {
        &mut self.handle
    }

    /// Returns the external side of the effect boundary.
    pub fn effects(&mut self) -> (r: &mut EffectIo)
        ensures
            *r == old(self).effects,
            *final(self) == (Runtime { effects: *final(r), ..*old(self) }),
    {
        &mut self.effects
    }

    /// Provides synchronous advanced access at a safe point.
    pub fn world(&self) -> (r: &World)
        ensures
            *r == self.world,
    {
        &self.world
    }

    /// Provides synchronous construction/extension access at a safe point.
    pub fn world_mut(&mut self) -> (r: &mut World)
        ensures
            *r == old(self).world,
            *final(self) == (Runtime { world: *final(r), ..*old(self) }),
    {
        &mut self.world
    }

    /// Runs one schedule pass.
    pub fn update(&mut self)
        ensures
            exists|reasons: Reasons| final(self)@ == #[trigger] schedule_pass(old(self)@, reasons),
            final(self).progress_limit == old(self).progress_limit,
    {
        let ghost start = self@;
        run_schedule(&mut self.world, &mut self.handle, &mut self.effects);
        proof {
            let reasons = choose|reasons: Reasons|
                (ScheduleView {
                    world: self.world@,
                    handle: self.handle@,
                    effects: self.effects@,
                }) == #[trigger] schedule_pass(start, reasons);
            assert(self@ == schedule_pass(start, reasons));
        }
    }

    /// Drives immediate work until no system reports progress, and says after how many passes
    /// none did. The reasons for which schemas are refused are the outside crate's.
    pub fn run_until_stalled(&mut self) -> (r: Result<usize, DriveError>)
        ensures
            final(self).progress_limit == old(self).progress_limit,
            exists|reasons: PassReasons|
                {
                    &&& final(self)@ == #[trigger] driven(
                        old(self)@,
                        old(self).progress_limit as nat,
                        reasons,
                    )
                    &&& match first_stall(
                        old(self)@,
                        old(self).progress_limit as nat,
                        1,
                        reasons,
                    ) {
                        Some(passes) => r == Ok::<usize, DriveError>(passes as usize) && passes
                            <= old(self).progress_limit,
                        None => r == Err::<usize, DriveError>(
                            DriveError::ProgressLimit(old(self).progress_limit),
                        ),
                    }
                },
    {
        let limit: usize = self.progress_limit;
        let ghost start = self@;
        let ghost mut reasons: PassReasons = Seq::empty();
        let mut passes: usize = 0;
        while passes < limit
            invariant
                0 <= passes <= limit,
                limit == self.progress_limit,
                limit == old(self).progress_limit,
                start == old(self)@,
                reasons.len() == passes,
                self@ == after_passes(start, passes as nat, reasons),
                forall|m: nat| 1 <= m <= passes ==> !#[trigger] stalls_at(start, m, reasons),
            decreases limit - passes,
        {
            let before: u64 = self.world.resources.epoch;
            let ghost s = self@;
            let ghost known = reasons;
            self.update();
            passes = passes + 1;
            proof {
                let pass = choose|pass: Reasons| self@ == #[trigger] schedule_pass(s, pass);
                reasons = known.push(pass);
                lemma_own_passes(start, (passes - 1) as nat, known, reasons);
                assert forall|m: nat| 1 <= m < passes implies !#[trigger] stalls_at(
                    start,
                    m,
                    reasons,
                ) by {
                    assert(!stalls_at(start, m, known));
                    lemma_own_passes(start, m, known, reasons);
                    lemma_own_passes(start, (m - 1) as nat, known, reasons);
                }
            }
            if self.world.resources.epoch == before {
                proof {
                    assert(stalls_at(start, passes as nat, reasons));
                    law_drive_is_bounded(start, limit as nat, reasons);
                    assert(self@ == driven(start, limit as nat, reasons));
                }
                return Ok(passes);
            }
            assert(!stalls_at(start, passes as nat, reasons));
        }
        proof {
            law_drive_is_bounded(start, limit as nat, reasons);
            assert(self@ == driven(start, limit as nat, reasons));
        }
        Err(DriveError::ProgressLimit(limit))
    }

    /// Spawns a model entity into this authoritative world.
    pub fn spawn_model(&mut self, id: StableId, tenant: TenantId, model: ModelCapability) -> (r:
        Result<Entity, SpawnError>)
        ensures
            match r {
                Ok(e) => {
                    &&& spawn_fault(old(self)@.world, id@, tenant@, Seq::empty()) is None
                    &&& e == old(self)@.world.fresh()
                    &&& final(self).same_but_world(
                        old(self),
                        old(self)@.world.with_model(id@, tenant@, model@),
                    )
                },
                Err(error) => {
                    &&& spawn_fault(old(self)@.world, id@, tenant@, Seq::empty()) == Some(error@)
                    &&& *final(self) == *old(self)
                },
            },
    {
        if let Err(error) = check_related(&self.world, &id, &tenant, &Vec::new()) {
            return Err(error);
        }
        Ok(self.world.spawn_model(id, tenant, model))
    }

    /// Spawns an agent related to an existing model entity.
    pub fn spawn_agent(&mut self, id: StableId, tenant: TenantId, agent: Agent, model: Entity) -> (r:
        Result<AgentHandle, SpawnError>)
        ensures
            match r {
                Ok(handle) => {
                    &&& spawn_fault(old(self)@.world, id@, tenant@, seq![model]) is None
                    &&& handle.runtime_id == old(self)@.handle.runtime_id
                    &&& handle.entity == old(self)@.world.fresh()
                    &&& final(self).same_but_world(
                        old(self),
                        old(self)@.world.with_agent(id@, tenant@, agent@, model),
                    )
                },
                Err(error) => {
                    &&& spawn_fault(old(self)@.world, id@, tenant@, seq![model]) == Some(error@)
                    &&& *final(self) == *old(self)
                },
            },
    {
        let related = vec![model];
        assert(related@ =~= seq![model]);
        if let Err(error) = check_related(&self.world, &id, &tenant, &related) {
            return Err(error);
        }
        let entity = self.world.spawn_agent(id, tenant, agent, model);
        Ok(AgentHandle { runtime_id: self.handle.runtime_id, entity })
    }

    /// Spawns a policy instance related to an agent.
    pub fn spawn_policy(
        &mut self,
        id: StableId,
        tenant: TenantId,
        policy: Policy,
        agent: AgentHandle,
    ) -> (r: Result<Entity, SpawnError>)
        ensures
            match r {
                Ok(e) => {
                    &&& agent.runtime_id == old(self)@.handle.runtime_id
                    &&& spawn_fault(old(self)@.world, id@, tenant@, seq![agent.entity]) is None
                    &&& e == old(self)@.world.fresh()
                    &&& final(self).same_but_world(
                        old(self),
                        old(self)@.world.with_policy(id@, tenant@, policy@, agent.entity),
                    )
                },
                Err(error) => {
                    &&& if agent.runtime_id == old(self)@.handle.runtime_id {
                        spawn_fault(old(self)@.world, id@, tenant@, seq![agent.entity]) == Some(
                            error@,
                        )
                    } else {
                        error@ == SpawnErrorView::ForeignRuntime
                    }
                    &&& *final(self) == *old(self)
                },
            },
    {
        if agent.runtime_id != self.handle.runtime_id {
            return Err(SpawnError::ForeignRuntime);
        }
        let related = vec![agent.entity];
        assert(related@ =~= seq![agent.entity]);
        if let Err(error) = check_related(&self.world, &id, &tenant, &related) {
            return Err(error);
        }
        Ok(self.world.spawn_policy(id, tenant, policy, agent.entity))
    }

    /// Sets an agent's structured-output requirement for future operations.
    pub fn set_output_requirement(&mut self, agent: AgentHandle, requirement: OutputRequirement) -> (r:
        Result<(), SpawnError>)
        ensures
            match r {
                Ok(_) => {
                    &&& agent.runtime_id == old(self)@.handle.runtime_id
                    &&& old(self)@.world.domain.agents.contains_key(agent.entity)
                    &&& final(self).same_but_world(
                        old(self),
                        old(self)@.world.with_output_requirement(agent.entity, Some(requirement)),
                    )
                },
                Err(error) => {
                    &&& error@ == if agent.runtime_id != old(self)@.handle.runtime_id {
                        SpawnErrorView::ForeignRuntime
                    } else {
                        SpawnErrorView::StaleEntity(agent.entity)
                    }
                    &&& agent.runtime_id != old(self)@.handle.runtime_id || !old(
                        self,
                    )@.world.domain.agents.contains_key(agent.entity)
                    &&& *final(self) == *old(self)
                },
            },
    {
        if agent.runtime_id != self.handle.runtime_id {
            return Err(SpawnError::ForeignRuntime);
        }
        if !self.world.domain.agents.contains(agent.entity) {
            return Err(SpawnError::StaleEntity(agent.entity));
        }
        self.world.require_output(agent.entity, Some(requirement));
        Ok(())
    }

    /// Sets vector retrieval for future runs of an agent.
    pub fn set_retrieval_requirement(
        &mut self,
        agent: AgentHandle,
        requirement: RetrievalRequirement,
    ) -> (r: Result<(), SpawnError>)
        ensures
            match r {
                Ok(_) => {
                    &&& agent.runtime_id == old(self)@.handle.runtime_id
                    &&& old(self)@.world.domain.agents.contains_key(agent.entity)
                    &&& final(self).same_but_world(
                        old(self),
                        old(self)@.world.with_retrieval_requirement(agent.entity, Some(requirement)),
                    )
                },
                Err(error) => {
                    &&& error@ == if agent.runtime_id != old(self)@.handle.runtime_id {
                        SpawnErrorView::ForeignRuntime
                    } else {
                        SpawnErrorView::StaleEntity(agent.entity)
                    }
                    &&& agent.runtime_id != old(self)@.handle.runtime_id || !old(
                        self,
                    )@.world.domain.agents.contains_key(agent.entity)
                    &&& *final(self) == *old(self)
                },
            },
    {
        if agent.runtime_id != self.handle.runtime_id {
            return Err(SpawnError::ForeignRuntime);
        }
        if !self.world.domain.agents.contains(agent.entity) {
            return Err(SpawnError::StaleEntity(agent.entity));
        }
        self.world.require_retrieval(agent.entity, Some(requirement));
        Ok(())
    }

    /// Spawns an executable tool capability entity.
    pub fn spawn_tool(&mut self, id: StableId, tenant: TenantId, tool: ToolCapability) -> (r: Result<
        Entity,
        SpawnError,
    >)
        ensures
            match r {
                Ok(e) => {
                    &&& spawn_fault(old(self)@.world, id@, tenant@, Seq::empty()) is None
                    &&& e == old(self)@.world.fresh()
                    &&& final(self).same_but_world(
                        old(self),
                        old(self)@.world.with_tool(id@, tenant@, tool@),
                    )
                },
                Err(error) => {
                    &&& spawn_fault(old(self)@.world, id@, tenant@, Seq::empty()) == Some(error@)
                    &&& *final(self) == *old(self)
                },
            },
    {
        if let Err(error) = check_related(&self.world, &id, &tenant, &Vec::new()) {
            return Err(error);
        }
        Ok(self.world.spawn_tool(id, tenant, tool))
    }

    /// Spawns a dynamic discovery source entity.
    pub fn spawn_discovery_source(&mut self, id: StableId, tenant: TenantId, kind: String) -> (r:
        Result<DiscoveryHandle, SpawnError>)
        ensures
            match r {
                Ok(handle) => {
                    &&& spawn_fault(old(self)@.world, id@, tenant@, Seq::empty()) is None
                    &&& handle.runtime_id == old(self)@.handle.runtime_id
                    &&& handle.entity == old(self)@.world.fresh()
                    &&& final(self).same_but_world(
                        old(self),
                        old(self)@.world.with_source(
                            id@,
                            tenant@,
                            (DiscoverySourceView {
                                kind: kind@,
                                generation: 0,
                                state: DiscoveryStateView::Idle,
                            }),
                        ),
                    )
                },
                Err(error) => {
                    &&& spawn_fault(old(self)@.world, id@, tenant@, Seq::empty()) == Some(error@)
                    &&& *final(self) == *old(self)
                },
            },
    {
        if let Err(error) = check_related(&self.world, &id, &tenant, &Vec::new()) {
            return Err(error);
        }
        let source = DiscoverySource { kind, generation: 0, state: DiscoveryState::Idle };
        let entity = self.world.spawn_source(id, tenant, source);
        Ok(DiscoveryHandle { runtime_id: self.handle.runtime_id, entity })
    }

    /// Spawns independent many-to-many access metadata for an agent and tool.
    pub fn grant_tool(
        &mut self,
        id: StableId,
        tenant: TenantId,
        grant: ToolGrant,
        agent: AgentHandle,
        tool: Entity,
    ) -> (r: Result<Entity, SpawnError>)
        ensures
            match r {
                Ok(e) => {
                    &&& agent.runtime_id == old(self)@.handle.runtime_id
                    &&& spawn_fault(old(self)@.world, id@, tenant@, seq![agent.entity, tool]) is None
                    &&& e == old(self)@.world.fresh()
                    &&& final(self).same_but_world(
                        old(self),
                        old(self)@.world.with_tool_grant(id@, tenant@, grant, agent.entity, tool),
                    )
                },
                Err(error) => {
                    &&& if agent.runtime_id == old(self)@.handle.runtime_id {
                        spawn_fault(old(self)@.world, id@, tenant@, seq![agent.entity, tool])
                            == Some(error@)
                    } else {
                        error@ == SpawnErrorView::ForeignRuntime
                    }
                    &&& *final(self) == *old(self)
                },
            },
    {
        if agent.runtime_id != self.handle.runtime_id {
            return Err(SpawnError::ForeignRuntime);
        }
        let related = vec![agent.entity, tool];
        assert(related@ =~= seq![agent.entity, tool]);
        if let Err(error) = check_related(&self.world, &id, &tenant, &related) {
            return Err(error);
        }
        Ok(self.world.spawn_tool_grant(id, tenant, grant, agent.entity, tool))
    }

    /// Spawns an addressable store capability entity.
    pub fn spawn_store(&mut self, id: StableId, tenant: TenantId, store: StoreCapability) -> (r:
        Result<Entity, SpawnError>)
        ensures
            match r {
                Ok(e) => {
                    &&& spawn_fault(old(self)@.world, id@, tenant@, Seq::empty()) is None
                    &&& e == old(self)@.world.fresh()
                    &&& final(self).same_but_world(
                        old(self),
                        old(self)@.world.with_store(id@, tenant@, store@),
                    )
                },
                Err(error) => {
                    &&& spawn_fault(old(self)@.world, id@, tenant@, Seq::empty()) == Some(error@)
                    &&& *final(self) == *old(self)
                },
            },
    {
        if let Err(error) = check_related(&self.world, &id, &tenant, &Vec::new()) {
            return Err(error);
        }
        Ok(self.world.spawn_store(id, tenant, store))
    }

    /// Spawns independent many-to-many access metadata for an agent and store.
    pub fn grant_store(
        &mut self,
        id: StableId,
        tenant: TenantId,
        grant: StoreGrant,
        agent: AgentHandle,
        store: Entity,
    ) -> (r: Result<Entity, SpawnError>)
        ensures
            match r {
                Ok(e) => {
                    &&& agent.runtime_id == old(self)@.handle.runtime_id
                    &&& spawn_fault(old(self)@.world, id@, tenant@, seq![agent.entity, store]) is None
                    &&& e == old(self)@.world.fresh()
                    &&& final(self).same_but_world(
                        old(self),
                        old(self)@.world.with_store_grant(id@, tenant@, grant, agent.entity, store),
                    )
                },
                Err(error) => {
                    &&& if agent.runtime_id == old(self)@.handle.runtime_id {
                        spawn_fault(old(self)@.world, id@, tenant@, seq![agent.entity, store])
                            == Some(error@)
                    } else {
                        error@ == SpawnErrorView::ForeignRuntime
                    }
                    &&& *final(self) == *old(self)
                },
            },
    {
        if agent.runtime_id != self.handle.runtime_id {
            return Err(SpawnError::ForeignRuntime);
        }
        let related = vec![agent.entity, store];
        assert(related@ =~= seq![agent.entity, store]);
        if let Err(error) = check_related(&self.world, &id, &tenant, &related) {
            return Err(error);
        }
        Ok(self.world.spawn_store_grant(id, tenant, grant, agent.entity, store))
    }

    /// Resolves a pending facade handle after ingestion.
    pub fn resolve_run(&self, pending: &PendingRunHandle) -> (r: Option<RunHandle>)
        ensures
            r == (if pending@.runtime_id == self@.handle.runtime_id {
                indexed_run(self@.world, pending@)
            } else {
                None
            }),
    {
        if pending.runtime_id != self.handle.runtime_id {
            return None;
        }
        lookup_run(&self.world, pending)
    }

    /// Clones the current run state and releases a terminal result for cleanup.
    pub fn observe_run(&mut self, run: RunHandle) -> (r: Result<Option<RunState>, SubmitError>)
        ensures
            match r {
                Ok(state) => {
                    &&& run.runtime_id == old(self)@.handle.runtime_id
                    &&& final(self).same_but_world(
                        old(self),
                        with_observation(old(self)@.world, run.entity),
                    )
                    &&& match state {
                        Some(state) => old(self)@.world.runs.states.contains_key(run.entity)
                            && state@ == old(self)@.world.runs.states[run.entity],
                        None => !old(self)@.world.runs.states.contains_key(run.entity),
                    }
                },
                Err(error) => {
                    &&& run.runtime_id != old(self)@.handle.runtime_id
                    &&& error@ == SubmitErrorView::ForeignRuntime
                    &&& *final(self) == *old(self)
                },
            },
    {
        if run.runtime_id != self.handle.runtime_id {
            return Err(SubmitError::ForeignRuntime);
        }
        Ok(read_run(&mut self.world, run.entity))
    }

    /// Clones the transcript of a run.
    pub fn run_transcript(&self, run: RunHandle) -> (r: Option<Vec<TranscriptEntry>>)
        ensures
            match r {
                Some(transcript) => self@.world.runs.records.contains_key(run.entity)
                    && transcript.deep_view() == self@.world.runs.records[run.entity].transcript,
                None => !self@.world.runs.records.contains_key(run.entity),
            },
    {
        match self.world.runs.records.get(run.entity) {
            Some(record) => Some(record.clone().transcript),
            None => None,
        }
    }

    /// Clones the committed turns of a run in the order of their index.
    pub fn run_committed_turns(&self, run: RunHandle) -> (r: Vec<CommittedTurn>)
        ensures
            r.deep_view() == turns_of_run(self@.world, run.entity),
    {
        broadcast use crate::fold::group_fold;

        let ids = self.world.runs.turn_of.sources(run.entity);
        let ghost pick = |e: Entity| turn_row(self@.world, e);
        let mut rows: Vec<(Vec<KeyPart>, CommittedTurn)> = Vec::new();
        assert(rows.deep_view() =~= Seq::empty());
        let mut i: usize = 0;
        while i < ids.len()
            invariant
                0 <= i <= ids@.len(),
                pick == (|e: Entity| turn_row(self@.world, e)),
                rows.deep_view() == picked(ids@.take(i as int), pick),
            decreases ids@.len() - i,
        {
            proof {
                lemma_picked_next(ids@, i as int, pick);
            }
            if let Some(turn) = self.world.runs.turns.get(ids[i]) {
                let ghost before = rows.deep_view();
                let key = vec![KeyPart::Number(turn.index as u64)];
                assert(key.deep_view() =~= seq![KeyPartView::Number(turn.index as u64)]);
                let turn = turn.clone();
                let ghost row = (key.deep_view(), turn@);
                rows.push((key, turn));
                assert(rows.deep_view() =~= before.push(row));
            }
            i = i + 1;
        }
        sort_values(rows)
    }

    /// Returns invariant violations found by the reconciliation stage.
    pub fn validate_invariants(&self) -> (r: Result<(), Vec<RuntimeInvariantError>>)
        ensures
            match r {
                Ok(_) => self@.world.resources.violations.len() == 0,
                Err(violations) => self@.world.resources.violations.len() > 0
                    && violations.deep_view() == self@.world.resources.violations,
            },
    {
        if self.world.resources.violations.len() == 0 {
            return Ok(());
        }
        let mut violations: Vec<RuntimeInvariantError> = Vec::new();
        let mut i: usize = 0;
        while i < self.world.resources.violations.len()
            invariant
                0 <= i <= self.world.resources.violations@.len(),
                violations@.len() == i,
                forall|k: int|
                    0 <= k < i ==> (#[trigger] violations@[k])@
                        == self.world.resources.violations@[k]@,
            decreases self.world.resources.violations@.len() - i,
        {
            violations.push(self.world.resources.violations[i].clone());
            i = i + 1;
        }
        assert(violations.deep_view() =~= self@.world.resources.violations);
        Err(violations)
    }

    /// Returns the latest schedule-derived lifecycle metrics.
    pub fn metrics(&self) -> (r: RuntimeMetrics)
        ensures
            r == self@.world.resources.metrics,
    {
        self.world.resources.metrics
    }

    /// Captures persistent domain configuration using stable identities.
    pub fn snapshot(&self) -> (r: Result<DomainSnapshot, PersistenceError>)
        ensures
            match r {
                Ok(snapshot) => first_stale(self@.world) is None && snapshot@ == domain_records(
                    self@.world,
                ),
                Err(error) => first_stale(self@.world) is Some && error@
                    == PersistenceErrorView::StaleRelationship(first_stale(self@.world)->0),
            },
    {
        snapshot_domain(&self.world)
    }

    /// Reconstructs persistent domain entities and remaps their relationships.
    pub fn restore(&mut self, snapshot: DomainSnapshot) -> (r: Result<
        RestoredEntities,
        PersistenceError,
    >)
        ensures
            match r {
                Ok(entities) => {
                    &&& restore_fault(old(self)@.world, snapshot@) is None
                    &&& entities@ == restored_entities(old(self)@.world, snapshot@)
                    &&& final(self).same_but_world(
                        old(self),
                        restored(old(self)@.world, snapshot@).world,
                    )
                },
                Err(error) => {
                    &&& restore_fault(old(self)@.world, snapshot@) == Some(error@)
                    &&& final(self).same_but_world(old(self), old(self)@.world)
                },
            },
    {
        restore_domain(&mut self.world, snapshot)
    }
}

} // verus!
