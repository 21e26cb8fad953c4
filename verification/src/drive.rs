//! Driving a standalone runtime between the calls of its executors.

use vstd::prelude::*;

use crate::column::Entity;
use crate::effect::{
    EffectCompletion, EffectDelta, EffectIngressView, EffectRequest, TranscriptEntry,
    TranscriptEntryView, Usage,
};
use crate::handle::{
    ends_stream, stream_next, stream_read, RunStream, RunStreamView, RuntimeHandleView,
};
use crate::queue::SendError;
use crate::report::{
    LocalAgentError, LocalAgentErrorView, LocalRunResult, LocalRunResultView, LocalStreamEvent,
    LocalStreamEventView,
};
use crate::run::{
    CommittedTurnView, DriveError, EffectIoError, PendingRunHandle, PendingRunHandleView,
    RunHandle, RunState, RunStateView, StreamItem, StreamItemView, StreamTerminal,
    StreamTerminalView,
};
use crate::runtime::{indexed_run, turns_of_run, with_observation, Runtime};
use crate::schedule::{
    driven, first_stall, law_drive_is_bounded, lemma_passes_drain_ingress, PassReasons,
    ScheduleView,
};
use crate::world::WorldView;

verus! {

/// The error of a drive that took too many passes.
pub open spec fn drive_failure(limit: usize) -> LocalAgentErrorView {
    LocalAgentErrorView::Drive(DriveError::ProgressLimit(limit))
}

/// A runtime after a message was sent to its ingress queue. Where the queue is full, the runtime
/// is driven first, which makes room.
pub open spec fn sent(
    s: ScheduleView,
    limit: usize,
    message: EffectIngressView,
    reasons: PassReasons,
) -> ScheduleView {
    if s.effects.ingress.refusal() == Some(SendError::Full) {
        let t = driven(s, limit as nat, reasons);
        if first_stall(s, limit as nat, 1, reasons) is Some {
            ScheduleView { effects: t.effects.told(message), ..t }
        } else {
            t
        }
    } else {
        ScheduleView { effects: s.effects.told(message), ..s }
    }
}

/// Why a message does not reach the ingress queue, if it does not.
pub open spec fn send_failure(s: ScheduleView, limit: usize, reasons: PassReasons) -> Option<
    LocalAgentErrorView,
> {
    match s.effects.ingress.refusal() {
        Some(SendError::Disconnected) => Some(
            LocalAgentErrorView::Effect(EffectIoError::Disconnected),
        ),
        Some(SendError::Full) => if first_stall(s, limit as nat, 1, reasons) is Some {
            None
        } else {
            Some(drive_failure(limit))
        },
        None => None,
    }
}

/// The usage of each turn.
pub open spec fn usages_of(turns: Seq<CommittedTurnView>) -> Seq<Usage> {
    Seq::new(turns.len(), |i: int| turns[i].output.usage)
}

/// The transcript of a run; a run without a record has none.
pub open spec fn transcript_of(w: WorldView, run: Entity) -> Seq<TranscriptEntryView> {
    if w.runs.records.contains_key(run) {
        w.runs.records[run].transcript
    } else {
        Seq::empty()
    }
}

/// The run that a submitted prompt became, if it is known and of this runtime.
pub open spec fn known_run(s: ScheduleView, pending: PendingRunHandleView) -> Option<RunHandle> {
    if pending.runtime_id == s.handle.runtime_id {
        indexed_run(s.world, pending)
    } else {
        None
    }
}

/// Transcript and usages of a submitted prompt.
pub open spec fn details_of(s: ScheduleView, pending: PendingRunHandleView) -> (
    Seq<TranscriptEntryView>,
    Seq<Usage>,
) {
    match known_run(s, pending) {
        Some(run) => (
            transcript_of(s.world, run.entity),
            usages_of(turns_of_run(s.world, run.entity)),
        ),
        None => (Seq::empty(), Seq::empty()),
    }
}

/// What the state of a run means for its caller: a result, a failure, or that it goes on.
pub open spec fn state_outcome(
    state: Option<RunStateView>,
    transcript: Seq<TranscriptEntryView>,
    completion_calls: Seq<Usage>,
) -> Result<Option<LocalRunResultView>, LocalAgentErrorView> {
    match state {
        Some(RunStateView::Completed(output)) => Ok(
            Some(LocalRunResultView { output, transcript, completion_calls }),
        ),
        Some(RunStateView::Failed(error)) => Err(LocalAgentErrorView::Canonical(error)),
        Some(RunStateView::Cancelled) => Err(LocalAgentErrorView::Cancelled),
        _ => Ok(None),
    }
}

/// The state of a run, if it has one.
pub open spec fn state_of(w: WorldView, run: Entity) -> Option<RunStateView> {
    if w.runs.states.contains_key(run) {
        Some(w.runs.states[run])
    } else {
        None
    }
}

/// What a caller learns of a submitted prompt.
pub open spec fn prompt_outcome(s: ScheduleView, pending: PendingRunHandleView) -> Result<
    Option<LocalRunResultView>,
    LocalAgentErrorView,
> {
    match known_run(s, pending) {
        Some(run) => state_outcome(
            state_of(s.world, run.entity),
            details_of(s, pending).0,
            details_of(s, pending).1,
        ),
        None => Ok(None),
    }
}

/// A runtime after the state of a submitted prompt was read.
pub open spec fn after_reading(s: ScheduleView, pending: PendingRunHandleView) -> ScheduleView {
    match known_run(s, pending) {
        Some(run) => ScheduleView { world: with_observation(s.world, run.entity), ..s },
        None => s,
    }
}

/// What an executable outcome stands for.
pub open spec fn outcome_view(r: Result<Option<LocalRunResult>, LocalAgentError>) -> Result<
    Option<LocalRunResultView>,
    LocalAgentErrorView,
> {
    match r {
        Ok(Some(result)) => Ok(Some(result@)),
        Ok(None) => Ok(None),
        Err(error) => Err(error@),
    }
}

/// How far a stream has come.
#[derive(Debug)]
pub enum StreamProgress {
    /// More may come.
    Open,
    /// The run has completed.
    Finished,
    /// The run or its stream has failed.
    Failed(LocalAgentError),
}

/// What a [`StreamProgress`] holds.
#[verifier::ext_equal]
pub enum StreamProgressView {
    Open,
    Finished,
    Failed(LocalAgentErrorView),
}

impl View for StreamProgress {
    type V = StreamProgressView;

    open spec fn view(&self) -> StreamProgressView {
        match self {
            StreamProgress::Open => StreamProgressView::Open,
            StreamProgress::Finished => StreamProgressView::Finished,
            StreamProgress::Failed(error) => StreamProgressView::Failed(error@),
        }
    }
}

/// A stream in the course of being read.
#[verifier::ext_equal]
pub struct ReceivedView {
    pub handle: RuntimeHandleView,
    pub stream: RunStreamView,
    pub events: Seq<LocalStreamEventView>,
    pub progress: StreamProgressView,
}

/// Number of items that wait in a stream.
pub open spec fn waiting(handle: RuntimeHandleView, stream: RunStreamView) -> nat {
    if stream.stream < handle.streams.len() {
        handle.streams[stream.stream as int].items.len()
    } else {
        0
    }
}

/// A facade and a stream after one item was read.
pub open spec fn after_item(handle: RuntimeHandleView, stream: RunStreamView) -> (
    RuntimeHandleView,
    RunStreamView,
) {
    let next = stream_next(handle.streams, stream.stream);
    let read = RuntimeHandleView { streams: stream_read(handle.streams, stream.stream), ..handle };
    (
        if ends_stream(next) && !stream.acknowledged {
            read.acknowledged(stream.run_id)
        } else {
            read
        },
        RunStreamView { acknowledged: stream.acknowledged || ends_stream(next), ..stream },
    )
}

/// The events of all items that wait in a stream, up to the outcome of the run.
pub open spec fn received(
    handle: RuntimeHandleView,
    stream: RunStreamView,
    events: Seq<LocalStreamEventView>,
    details: (Seq<TranscriptEntryView>, Seq<Usage>),
) -> ReceivedView
    decreases waiting(handle, stream),
{
    let next = stream_next(handle.streams, stream.stream);
    let (handle_next, stream_next) = after_item(handle, stream);
    let r = ReceivedView {
        handle: handle_next,
        stream: stream_next,
        events,
        progress: StreamProgressView::Open,
    };
    match next {
        Ok(None) => r,
        Err(error) => ReceivedView {
            progress: StreamProgressView::Failed(LocalAgentErrorView::Stream(error)),
            ..r
        },
        Ok(Some(StreamItemView::Delta { text, .. })) => if waiting(handle_next, stream_next)
            < waiting(handle, stream) {
            received(
                handle_next,
                stream_next,
                events.push(LocalStreamEventView::Delta(text)),
                details,
            )
        } else {
            r
        },
        Ok(Some(StreamItemView::Finished(StreamTerminalView::Completed(output)))) => ReceivedView {
            events: events.push(
                LocalStreamEventView::Finished {
                    output,
                    transcript: details.0,
                    completion_calls: details.1,
                },
            ),
            progress: StreamProgressView::Finished,
            ..r
        },
        Ok(Some(StreamItemView::Finished(StreamTerminalView::Failed(error)))) => ReceivedView {
            progress: StreamProgressView::Failed(LocalAgentErrorView::Canonical(error)),
            ..r
        },
        Ok(Some(StreamItemView::Finished(StreamTerminalView::Cancelled))) => ReceivedView {
            progress: StreamProgressView::Failed(LocalAgentErrorView::Cancelled),
            ..r
        },
    }
}

impl Runtime {
    /// Whether a runtime was made with room for messages and passes.
    pub open spec fn has_room(&self) -> bool {
        self@.effects.ingress.capacity > 0 && self.progress_limit > 0
    }

    /// Drives immediate work.
    pub(crate) fn drive_once(&mut self) -> (r: Result<(), LocalAgentError>)
        ensures
            final(self).progress_limit == old(self).progress_limit,
            exists|reasons: PassReasons|
                {
                    &&& final(self)@ == #[trigger] driven(
                        old(self)@,
                        old(self).progress_limit as nat,
                        reasons,
                    )
                    &&& match first_stall(
                        old(self)@,
                        old(self).progress_limit as nat,
                        1,
                        reasons,
                    ) {
                        Some(_) => r is Ok,
                        None => r is Err && r->Err_0@ == drive_failure(old(self).progress_limit),
                    }
                },
    {
        match self.run_until_stalled() {
            Ok(_) => Ok(()),
            Err(error) => Err(LocalAgentError::Drive(error)),
        }
    }

    /// Drives immediate work and takes the effects that it asks for.
    pub fn drive_and_take_effects(&mut self) -> (r: Result<Vec<EffectRequest>, LocalAgentError>)
        ensures
            final(self).progress_limit == old(self).progress_limit,
            exists|reasons: PassReasons|
                {
                    let t = #[trigger] driven(old(self)@, old(self).progress_limit as nat, reasons);
                    if first_stall(
                        old(self)@,
                        old(self).progress_limit as nat,
                        1,
                        reasons,
                    ) is None {
                        &&& r is Err
                        &&& r->Err_0@ == drive_failure(old(self).progress_limit)
                        &&& final(self)@ == t
                    } else {
                        &&& final(self)@.world == t.world
                        &&& final(self)@.handle == t.handle
                        &&& final(self)@.effects.requests == t.effects.requests.drained()
                        &&& final(self)@.effects.cancellations == t.effects.cancellations
                        &&& final(self)@.effects.ingress == t.effects.ingress
                        &&& final(self)@.effects.wakes == t.effects.wakes
                        &&& match r {
                            Ok(requests) => {
                                &&& t.effects.requests.sending
                                &&& requests.deep_view() == t.effects.requests.items
                            },
                            Err(error) => {
                                &&& !t.effects.requests.sending
                                &&& error@ == LocalAgentErrorView::Effect(
                                    EffectIoError::Disconnected,
                                )
                            },
                        }
                    }
                },
    {
        let ghost start = self@;
        let ghost limit = self.progress_limit;
        let driving = self.drive_once();
        let ghost reasons = choose|reasons: PassReasons|
            {
                &&& self@ == #[trigger] driven(start, limit as nat, reasons)
                &&& match first_stall(start, limit as nat, 1, reasons) {
                    Some(_) => driving is Ok,
                    None => driving is Err && driving->Err_0@ == drive_failure(limit),
                }
            };
        assert(self@ == driven(start, limit as nat, reasons));
        if let Err(error) = driving {
            return Err(error);
        }
        let open = self.effects.requests.sending;
        let requests = self.effects.requests.drain();
        if open {
            Ok(requests)
        } else {
            Err(LocalAgentError::Effect(EffectIoError::Disconnected))
        }
    }

    /// Makes room for a message where there is none.
    fn make_room(&mut self) -> (r: Result<(), LocalAgentError>)
        requires
            old(self).has_room(),
        ensures
            final(self).progress_limit == old(self).progress_limit,
            exists|reasons: PassReasons|
                {
                    let t = #[trigger] driven(old(self)@, old(self).progress_limit as nat, reasons);
                    if old(self)@.effects.ingress.refusal() == Some(SendError::Full) {
                        &&& final(self)@ == t
                        &&& match first_stall(
                            old(self)@,
                            old(self).progress_limit as nat,
                            1,
                            reasons,
                        ) {
                            Some(_) => r is Ok && t.effects.ingress.refusal() is None,
                            None => r is Err && r->Err_0@ == drive_failure(
                                old(self).progress_limit,
                            ),
                        }
                    } else {
                        r is Ok && final(self)@ == old(self)@
                    }
                },
    {
        let ghost start = self@;
        let ghost limit = self.progress_limit;
        let full = self.effects.ingress.receiving && self.effects.ingress.items.len()
            >= self.effects.ingress.capacity;
        if full {
            let r = self.drive_once();
            proof {
                let reasons = choose|reasons: PassReasons|
                    {
                        &&& self@ == #[trigger] driven(start, limit as nat, reasons)
                        &&& match first_stall(start, limit as nat, 1, reasons) {
                            Some(_) => r is Ok,
                            None => r is Err && r->Err_0@ == drive_failure(limit),
                        }
                    };
                law_drive_is_bounded(start, limit as nat, reasons);
                if let Some(n) = first_stall(start, limit as nat, 1, reasons) {
                    lemma_passes_drain_ingress(start, n, reasons);
                }
                assert(self@ == driven(start, limit as nat, reasons));
            }
            r
        } else {
            assert(driven(start, limit as nat, Seq::empty()) == driven(
                start,
                limit as nat,
                Seq::empty(),
            ));
            Ok(())
        }
    }

    /// Submits a completion; where there is no room for it, immediate work is driven first.
    pub fn submit_completion(&mut self, completion: EffectCompletion) -> (r: Result<
        (),
        LocalAgentError,
    >)
        requires
            old(self).has_room(),
        ensures
            final(self).progress_limit == old(self).progress_limit,
            exists|reasons: PassReasons|
                {
                    &&& final(self)@ == #[trigger] sent(
                        old(self)@,
                        old(self).progress_limit,
                        EffectIngressView::Completion(completion@),
                        reasons,
                    )
                    &&& match r {
                        Ok(_) => send_failure(old(self)@, old(self).progress_limit, reasons)
                            is None,
                        Err(error) => send_failure(old(self)@, old(self).progress_limit, reasons)
                            == Some(error@),
                    }
                },
    {
        let ghost start = self@;
        let ghost limit = self.progress_limit;
        let ghost message = EffectIngressView::Completion(completion@);
        let room = self.make_room();
        let ghost t = self@;
        let ghost reasons = choose|reasons: PassReasons|
            {
                let d = #[trigger] driven(start, limit as nat, reasons);
                if start.effects.ingress.refusal() == Some(SendError::Full) {
                    &&& t == d
                    &&& match first_stall(start, limit as nat, 1, reasons) {
                        Some(_) => room is Ok && d.effects.ingress.refusal() is None,
                        None => room is Err && room->Err_0@ == drive_failure(limit),
                    }
                } else {
                    room is Ok && t == start
                }
            };
        if let Err(error) = room {
            assert(self@ == sent(start, limit, message, reasons));
            return Err(error);
        }
        let r = match self.effects.try_send(completion) {
            Ok(_) => Ok(()),
            Err(error) => Err(LocalAgentError::Effect(error)),
        };
        assert(self@ == sent(start, limit, message, reasons));
        r
    }

    /// Submits a delta; where there is no room for it, immediate work is driven first.
    pub fn submit_delta(&mut self, delta: EffectDelta) -> (r: Result<(), LocalAgentError>)
        requires
            old(self).has_room(),
        ensures
            final(self).progress_limit == old(self).progress_limit,
            exists|reasons: PassReasons|
                {
                    &&& final(self)@ == #[trigger] sent(
                        old(self)@,
                        old(self).progress_limit,
                        EffectIngressView::Delta(delta@),
                        reasons,
                    )
                    &&& match r {
                        Ok(_) => send_failure(old(self)@, old(self).progress_limit, reasons)
                            is None,
                        Err(error) => send_failure(old(self)@, old(self).progress_limit, reasons)
                            == Some(error@),
                    }
                },
    {
        let ghost start = self@;
        let ghost limit = self.progress_limit;
        let ghost message = EffectIngressView::Delta(delta@);
        let room = self.make_room();
        let ghost t = self@;
        let ghost reasons = choose|reasons: PassReasons|
            {
                let d = #[trigger] driven(start, limit as nat, reasons);
                if start.effects.ingress.refusal() == Some(SendError::Full) {
                    &&& t == d
                    &&& match first_stall(start, limit as nat, 1, reasons) {
                        Some(_) => room is Ok && d.effects.ingress.refusal() is None,
                        None => room is Err && room->Err_0@ == drive_failure(limit),
                    }
                } else {
                    room is Ok && t == start
                }
            };
        if let Err(error) = room {
            assert(self@ == sent(start, limit, message, reasons));
            return Err(error);
        }
        let r = match self.effects.try_send_delta(delta) {
            Ok(_) => Ok(()),
            Err(error) => Err(LocalAgentError::Effect(error)),
        };
        assert(self@ == sent(start, limit, message, reasons));
        r
    }

    /// Transcript and ordered usages of a submitted prompt.
    pub fn details_for_pending(&self, pending: &PendingRunHandle) -> (r: (
        Vec<TranscriptEntry>,
        Vec<Usage>,
    ))
        ensures
            (r.0.deep_view(), r.1@) == details_of(self@, pending@),
    {
        match self.resolve_run(pending) {
            Some(run) => {
                let transcript = match self.run_transcript(run) {
                    Some(transcript) => transcript,
                    None => {
                        let none: Vec<TranscriptEntry> = Vec::new();
                        assert(none.deep_view() =~= Seq::empty());
                        none
                    },
                };
                let turns = self.run_committed_turns(run);
                let ghost all = turns.deep_view();
                let mut usages: Vec<Usage> = Vec::new();
                let mut i: usize = 0;
                while i < turns.len()
                    invariant
                        i <= turns@.len(),
                        all == turns.deep_view(),
                        usages@.len() == i,
                        forall|k: int| 0 <= k < i ==> #[trigger] usages@[k] == all[k].output.usage,
                    decreases turns@.len() - i,
                {
                    assert(all[i as int] == turns@[i as int]@);
                    usages.push(turns[i].output.usage);
                    i = i + 1;
                }
                assert(usages@ =~= usages_of(all));
                (transcript, usages)
            },
            None => {
                let none: Vec<TranscriptEntry> = Vec::new();
                assert(none.deep_view() =~= Seq::empty());
                (none, Vec::new())
            },
        }
    }

    /// Reads the state of a submitted prompt: its result, its failure, or nothing while it goes
    /// on. A terminal outcome is thereby observed.
    pub fn read_outcome(&mut self, pending: &PendingRunHandle) -> (r: Result<
        Option<LocalRunResult>,
        LocalAgentError,
    >)
        ensures
            outcome_view(r) == prompt_outcome(old(self)@, pending@),
            final(self)@ == after_reading(old(self)@, pending@),
            final(self).progress_limit == old(self).progress_limit,
    {
        let run = match self.resolve_run(pending) {
            Some(run) => run,
            None => return Ok(None),
        };
        let (transcript, completion_calls) = self.details_for_pending(pending);
        let state = match self.observe_run(run) {
            Ok(state) => state,
            Err(error) => return Err(LocalAgentError::Submit(error)),
        };
        match state {
            Some(RunState::Completed(output)) => {
                let result = LocalRunResult { output, transcript, completion_calls };
                assert(result.completion_calls.deep_view() =~= result.completion_calls@);
                Ok(Some(result))
            },
            Some(RunState::Failed(error)) => Err(LocalAgentError::Canonical(error)),
            Some(RunState::Cancelled) => Err(LocalAgentError::Cancelled),
            _ => Ok(None),
        }
    }

    /// Drives immediate work and reads the state of a submitted prompt.
    pub fn drive_and_read_outcome(&mut self, pending: &PendingRunHandle) -> (r: Result<
        Option<LocalRunResult>,
        LocalAgentError,
    >)
        ensures
            final(self).progress_limit == old(self).progress_limit,
            exists|reasons: PassReasons|
                {
                    let t = #[trigger] driven(old(self)@, old(self).progress_limit as nat, reasons);
                    if first_stall(
                        old(self)@,
                        old(self).progress_limit as nat,
                        1,
                        reasons,
                    ) is None {
                        &&& outcome_view(r) == Err::<
                            Option<LocalRunResultView>,
                            LocalAgentErrorView,
                        >(drive_failure(old(self).progress_limit))
                        &&& final(self)@ == t
                    } else {
                        &&& outcome_view(r) == prompt_outcome(t, pending@)
                        &&& final(self)@ == after_reading(t, pending@)
                    }
                },
    {
        let ghost start = self@;
        let ghost limit = self.progress_limit;
        let driving = self.drive_once();
        let ghost reasons = choose|reasons: PassReasons|
            {
                &&& self@ == #[trigger] driven(start, limit as nat, reasons)
                &&& match first_stall(start, limit as nat, 1, reasons) {
                    Some(_) => driving is Ok,
                    None => driving is Err && driving->Err_0@ == drive_failure(limit),
                }
            };
        assert(self@ == driven(start, limit as nat, reasons));
        if let Err(error) = driving {
            return Err(error);
        }
        self.read_outcome(pending)
    }

    /// Takes the events of all items that wait in the stream of a submitted prompt, up to the
    /// outcome of its run.
    pub fn receive_events(&mut self, stream: &mut RunStream, pending: &PendingRunHandle) -> (r: (
        Vec<LocalStreamEvent>,
        StreamProgress,
    ))
        ensures
            ({
                let seen = received(
                    old(self)@.handle,
                    old(stream)@,
                    Seq::empty(),
                    details_of(old(self)@, pending@),
                );
                &&& r.0.deep_view() == seen.events
                &&& r.1@ == seen.progress
                &&& final(stream)@ == seen.stream
                &&& final(self)@ == (ScheduleView { handle: seen.handle, ..old(self)@ })
                &&& final(self).progress_limit == old(self).progress_limit
            }),
    {
        let (transcript, completion_calls) = self.details_for_pending(pending);
        let ghost details = (transcript.deep_view(), completion_calls@);
        let ghost all = received(self@.handle, stream@, Seq::empty(), details);
        let mut events: Vec<LocalStreamEvent> = Vec::new();
        assert(events.deep_view() =~= Seq::empty());
        loop
            invariant
                details == (transcript.deep_view(), completion_calls@),
                details == details_of(old(self)@, pending@),
                all == received(old(self)@.handle, old(stream)@, Seq::empty(), details),
                all == received(self@.handle, stream@, events.deep_view(), details),
                self@ == (ScheduleView { handle: self@.handle, ..old(self)@ }),
                self.progress_limit == old(self).progress_limit,
            decreases waiting(self@.handle, stream@),
        {
            let ghost before = events.deep_view();
            let ghost h = self@.handle;
            let ghost st = stream@;
            match stream.try_recv(&mut self.handle) {
                Ok(None) => {
                    return (events, StreamProgress::Open);
                },
                Ok(Some(StreamItem::Delta { text, .. })) => {
                    let ghost said = text@;
                    events.push(LocalStreamEvent::Delta(text));
                    proof {
                        assert(events.deep_view() =~= before.push(
                            LocalStreamEventView::Delta(said),
                        ));
                        assert(h.streams[st.stream as int].items.len() > 0);
                        assert(self@.handle.streams[st.stream as int].items
                            =~= h.streams[st.stream as int].items.drop_first());
                    }
                },
                Ok(Some(StreamItem::Finished(StreamTerminal::Completed(output)))) => {
                    let event = LocalStreamEvent::Finished { output, transcript, completion_calls };
                    let ghost view = event@;
                    proof {
                        assert(completion_calls.deep_view() =~= completion_calls@);
                    }
                    events.push(event);
                    assert(events.deep_view() =~= before.push(view));
                    return (events, StreamProgress::Finished);
                },
                Ok(Some(StreamItem::Finished(StreamTerminal::Failed(error)))) => {
                    return (events, StreamProgress::Failed(LocalAgentError::Canonical(error)));
                },
                Ok(Some(StreamItem::Finished(StreamTerminal::Cancelled))) => {
                    return (events, StreamProgress::Failed(LocalAgentError::Cancelled));
                },
                Err(error) => {
                    return (events, StreamProgress::Failed(LocalAgentError::Stream(error)));
                },
            }
        }
    }
}

} // verus!
