//! Commit of settled store operations.

use vstd::prelude::*;

use crate::column::{entities_of, Entity};
use crate::fold::lemma_fold_next;
use crate::effect::{
    CanonicalError, CanonicalErrorView, EffectOutput, EffectOutputView, OperationOutcome,
    OperationOutcomeView, OperationPhase, StoreEffectOutput, StoreEffectOutputView, StoreOperation,
    StoreOperationView,
};
use crate::run::{RunRecord, RunRecordView, RunState, RunStateView};
use crate::text::{concatenation, decimal, decimal_text, joined};
use crate::world::{World, WorldView};

verus! {

/// The message of a retrieval that gave more documents than were asked for.
pub open spec fn excess_message(found: nat, limit: nat) -> Seq<char> {
    concatenation(
        seq![
            "retrieval returned "@,
            decimal_text(found),
            " documents for limit "@,
            decimal_text(limit),
        ],
    )
}

/// What a settled store operation makes of its run: the new record and the new state.
pub open spec fn store_commit(
    record: RunRecordView,
    operation: StoreOperationView,
    outcome: OperationOutcomeView,
) -> (RunRecordView, RunStateView) {
    match (operation, outcome) {
        (
            StoreOperationView::LoadConversation { .. },
            OperationOutcomeView::Success(
                EffectOutputView::Store(StoreEffectOutputView::LoadedConversation(history)),
            ),
        ) => (
            RunRecordView {
                transcript: history + record.transcript,
                memory_loaded: true,
                ..record
            },
            RunStateView::Queued,
        ),
        (
            StoreOperationView::Retrieve { limit, .. },
            OperationOutcomeView::Success(
                EffectOutputView::Store(StoreEffectOutputView::Retrieved(documents)),
            ),
        ) => if documents.len() > limit {
            (
                record,
                RunStateView::Failed(
                    CanonicalErrorView::Store {
                        message: excess_message(documents.len(), limit as nat),
                        retryable: false,
                    },
                ),
            )
        } else {
            (
                RunRecordView {
                    retrieved_documents: documents,
                    retrieval_loaded: true,
                    ..record
                },
                RunStateView::Queued,
            )
        },
        (
            StoreOperationView::PersistConversation { .. },
            OperationOutcomeView::Success(
                EffectOutputView::Store(StoreEffectOutputView::Persisted),
            ),
        ) => match record.pending_output {
            Some(output) => (
                RunRecordView { pending_output: None, ..record },
                RunStateView::Completed(output),
            ),
            None => (record, RunStateView::Failed(CanonicalErrorView::EffectKindMismatch)),
        },
        (_, OperationOutcomeView::Failure(error)) => (record, RunStateView::Failed(error)),
        _ => (record, RunStateView::Failed(CanonicalErrorView::EffectKindMismatch)),
    }
}

/// Whether a store operation is settled and its run waits for it.
pub open spec fn store_commit_due(w: WorldView, operation: Entity) -> bool {
    &&& w.operations.store_inputs.contains_key(operation)
    &&& w.operations.operation_of.contains_key(operation)
    &&& w.operations.states.contains_key(operation)
    &&& w.operations.states[operation].phase is Settled
    &&& w.runs.states.contains_key(w.operations.operation_of[operation])
    &&& w.runs.records.contains_key(w.operations.operation_of[operation])
    &&& w.runs.states[w.operations.operation_of[operation]] == (RunStateView::WaitingStore {
        operation,
    })
}

/// The world after one store operation was committed, if it is due.
pub open spec fn commit_store_step(w: WorldView, operation: Entity) -> WorldView {
    if !store_commit_due(w, operation) {
        w
    } else {
        let run = w.operations.operation_of[operation];
        let (record, state) = store_commit(
            w.runs.records[run],
            w.operations.store_inputs[operation].operation,
            w.operations.states[operation].phase->Settled_0,
        );
        w.with_run_record(run, record).with_run_state(run, state).progressed()
    }
}

/// The world after every due store operation was committed.
pub open spec fn commit_stores(w: WorldView) -> WorldView {
    entities_of(w.operations.store_inputs.dom()).fold_left(
        w,
        |w: WorldView, e: Entity| commit_store_step(w, e),
    )
}

/// Decides what a settled store operation makes of its run.
pub fn decide_store_commit(
    record: &mut RunRecord,
    operation: &StoreOperation,
    outcome: &OperationOutcome,
) -> (state: RunState)
    ensures
        (final(record)@, state@) == store_commit(old(record)@, operation@, outcome@),
{
    match outcome {
        OperationOutcome::Failure(error) => RunState::Failed(error.clone()),
        OperationOutcome::Success(EffectOutput::Store(output)) => match (operation, output) {
            (
                StoreOperation::LoadConversation { .. },
                StoreEffectOutput::LoadedConversation(history),
            ) => {
                let mut transcript = history.clone();
                let ghost loaded = transcript.deep_view();
                let ghost own = record.transcript.deep_view();
                assert(loaded =~= history.deep_view());
                transcript.append(&mut record.transcript);
                assert(transcript.deep_view() =~= loaded + own);
                record.transcript = transcript;
                record.memory_loaded = true;
                RunState::Queued
            },
            (
                StoreOperation::Retrieve { query: _, limit },
                StoreEffectOutput::Retrieved(documents),
            ) => {
                if documents.len() > *limit {
                    let found = decimal(documents.len() as u64);
                    let most = decimal(*limit as u64);
                    let pieces = vec![
                        "retrieval returned ",
                        found.as_str(),
                        " documents for limit ",
                        most.as_str(),
                    ];
                    proof {
                        assert(Seq::new(pieces@.len(), |i: int| pieces@[i]@) =~= seq![
                            "retrieval returned "@,
                            found@,
                            " documents for limit "@,
                            most@,
                        ]);
                    }
                    RunState::Failed(
                        CanonicalError::Store { message: joined(pieces), retryable: false },
                    )
                } else {
                    record.retrieved_documents = documents.clone();
                    assert(record.retrieved_documents.deep_view() =~= documents.deep_view());
                    record.retrieval_loaded = true;
                    RunState::Queued
                }
            },
            (StoreOperation::PersistConversation { .. }, StoreEffectOutput::Persisted) => {
                match record.pending_output.take() {
                    Some(output) => RunState::Completed(output),
                    None => RunState::Failed(CanonicalError::EffectKindMismatch),
                }
            },
            _ => RunState::Failed(CanonicalError::EffectKindMismatch),
        },
        OperationOutcome::Success(_) => RunState::Failed(CanonicalError::EffectKindMismatch),
    }
}

/// Commits one store operation, if it is due.
pub fn commit_store_operation(world: &mut World, operation: Entity)
    ensures
        final(world)@ == commit_store_step(old(world)@, operation),
{
    let input = match world.operations.store_inputs.get(operation) {
        Some(input) => input.clone(),
        None => {
            return;
        },
    };
    let run = match world.operations.operation_of.get(operation) {
        Some(run) => *run,
        None => {
            return;
        },
    };
    let outcome = match world.operations.states.get(operation) {
        Some(state) => match &state.phase {
            OperationPhase::Settled(outcome) => outcome.clone(),
            _ => {
                return;
            },
        },
        None => {
            return;
        },
    };
    match world.runs.states.get(run) {
        Some(RunState::WaitingStore { operation: waiting }) => {
            if *waiting != operation {
                return;
            }
        },
        _ => {
            return;
        },
    }
    let mut record = match world.runs.records.get(run) {
        Some(record) => record.clone(),
        None => {
            return;
        },
    };
    let state = decide_store_commit(&mut record, &input.operation, &outcome);
    world.set_run_record(run, record);
    world.set_run_state(run, state);
    world.mark_progress();
}

/// Commits every due store operation.
pub fn commit_store_operations(world: &mut World)
    ensures
        final(world)@ == commit_stores(old(world)@),
{
    broadcast use crate::fold::group_fold;

    let ids = world.operations.store_inputs.entities();
    let ghost start = world@;
    let ghost step = |w: WorldView, e: Entity| commit_store_step(w, e);
    let mut i: usize = 0;
    while i < ids.len()
        invariant
            i <= ids@.len(),
            step == (|w: WorldView, e: Entity| commit_store_step(w, e)),
            world@ == ids@.take(i as int).fold_left(start, step),
        decreases ids@.len() - i,
    {
        proof {
            lemma_fold_next(ids@, i as int, start, step);
        }
        commit_store_operation(world, ids[i]);
        i = i + 1;
    }
}

} // verus!
