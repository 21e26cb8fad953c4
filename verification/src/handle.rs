//! The command facade, its streams and the effect boundary.

use vstd::prelude::*;

use crate::column::Entity;
use crate::effect::{
    CanonicalError, CanonicalErrorView, EffectCancellation, EffectCompletion, EffectCompletionView,
    EffectDelta, EffectIngress, EffectIngressView, EffectRequest, EffectRequestView,
};
use crate::identity::StableId;
use crate::queue::{Queue, QueueView, ReceiveError, SendError};
use crate::run::{
    AgentHandle, DiscoveryHandle, EffectIoError, PendingRunHandle, PendingRunHandleView,
    PromptPayload, PromptPayloadView, RunHandle, RuntimeCommand, RuntimeCommandView, StreamItem,
    StreamItemView, StreamReceiveError, SubmitError, SubmitErrorView,
};
use crate::streams::StreamsView;
use crate::text::{concatenation, decimal, decimal_text, joined};
use crate::world::successor;

verus! {

/// Command facade of one runtime.
#[derive(Debug)]
pub struct RuntimeHandle {
    /// Runtime that the facade belongs to.
    pub runtime_id: u64,
    /// Commands that wait for the next schedule pass.
    pub commands: Queue<RuntimeCommand>,
    /// Acknowledged runs that wait for the next schedule pass.
    pub observations: Vec<StableId>,
    /// Number of the next run.
    pub next_run_id: u64,
    /// Items that a stream may hold.
    pub subscriber_capacity: usize,
    /// Streams of all subscriptions.
    pub streams: Vec<Queue<StreamItem>>,
    /// Counts the occasions on which the host is to be woken.
    pub wakes: u64,
}

/// What a [`RuntimeHandle`] holds.
#[verifier::ext_equal]
pub struct RuntimeHandleView {
    pub runtime_id: u64,
    pub commands: QueueView<RuntimeCommandView>,
    pub observations: Seq<Seq<char>>,
    pub next_run_id: u64,
    pub subscriber_capacity: usize,
    pub streams: StreamsView,
    pub wakes: u64,
}

impl View for RuntimeHandle {
    type V = RuntimeHandleView;

    open spec fn view(&self) -> RuntimeHandleView {
        RuntimeHandleView {
            runtime_id: self.runtime_id,
            commands: self.commands@,
            observations: self.observations.deep_view(),
            next_run_id: self.next_run_id,
            subscriber_capacity: self.subscriber_capacity,
            streams: self.streams.deep_view(),
            wakes: self.wakes,
        }
    }
}

/// Text of the id of a run.
pub open spec fn run_id_text(runtime_id: u64, sequence: u64) -> Seq<char> {
    concatenation(
        seq!["run-"@, decimal_text(runtime_id as nat), "-"@, decimal_text(sequence as nat)],
    )
}

/// What a prompt asks for besides the prompt itself.
#[derive(Debug)]
pub struct PromptOptions {
    /// Messages before the prompt.
    pub history: Vec<serde_json::Value>,
    /// Structured-output requirement of the run.
    pub output_schema: Option<serde_json::Value>,
    /// Model-call budget of the run.
    pub max_model_calls: Option<u32>,
    /// Conversation that the run belongs to.
    pub conversation: Option<StableId>,
}

/// What [`PromptOptions`] hold.
#[verifier::ext_equal]
pub struct PromptOptionsView {
    pub history: Seq<serde_json::Value>,
    pub output_schema: Option<serde_json::Value>,
    pub max_model_calls: Option<u32>,
    pub conversation: Option<Seq<char>>,
}

impl View for PromptOptions {
    type V = PromptOptionsView;

    open spec fn view(&self) -> PromptOptionsView {
        PromptOptionsView {
            history: self.history@,
            output_schema: self.output_schema,
            max_model_calls: self.max_model_calls,
            conversation: self.conversation.deep_view(),
        }
    }
}

impl PromptOptionsView {
    /// Options that ask for nothing.
    pub open spec fn none() -> PromptOptionsView {
        PromptOptionsView {
            history: Seq::empty(),
            output_schema: None,
            max_model_calls: None,
            conversation: None,
        }
    }
}

impl Default for PromptOptions {
    fn default() -> (r: Self)
        ensures
            r@ == PromptOptionsView::none(),
    {
        PromptOptions {
            history: Vec::new(),
            output_schema: None,
            max_model_calls: None,
            conversation: None,
        }
    }
}

/// How a refusal of the command queue is reported.
pub open spec fn submit_refusal(error: SendError) -> SubmitErrorView {
    match error {
        SendError::Full => SubmitErrorView::Backpressure,
        SendError::Disconnected => SubmitErrorView::Disconnected,
    }
}

impl RuntimeHandleView {
    /// The facade after a command was offered to its queue; an accepted one wakes the host.
    pub open spec fn submitted(self, command: RuntimeCommandView) -> RuntimeHandleView {
        RuntimeHandleView {
            commands: self.commands.offered(command),
            wakes: if self.commands.refusal() is None {
                successor(self.wakes)
            } else {
                self.wakes
            },
            ..self
        }
    }

    /// The prompt command of the next run.
    pub open spec fn prompt_command(
        self,
        agent: Entity,
        prompt: PromptPayloadView,
        options: PromptOptionsView,
        subscriber: Option<u64>,
    ) -> RuntimeCommandView {
        RuntimeCommandView::Prompt {
            agent,
            run_id: run_id_text(self.runtime_id, self.next_run_id),
            prompt,
            history: options.history,
            output_schema: options.output_schema,
            max_model_calls: options.max_model_calls,
            conversation: options.conversation,
            subscriber,
        }
    }

    /// The facade after a prompt was offered to the runtime: the number of its run is used up
    /// whether or not there is room for it.
    pub open spec fn prompted(
        self,
        agent: Entity,
        prompt: PromptPayloadView,
        options: PromptOptionsView,
        subscriber: Option<u64>,
    ) -> RuntimeHandleView {
        RuntimeHandleView {
            next_run_id: successor(self.next_run_id),
            ..self.submitted(self.prompt_command(agent, prompt, options, subscriber))
        }
    }

    /// The facade after a streaming prompt was offered: an accepted one has a stream.
    pub open spec fn prompted_stream(
        self,
        agent: Entity,
        prompt: PromptPayloadView,
        options: PromptOptionsView,
    ) -> RuntimeHandleView {
        let next = self.prompted(agent, prompt, options, Some(self.streams.len() as u64));
        if self.commands.refusal() is None {
            RuntimeHandleView {
                streams: self.streams.push(QueueView::empty(self.subscriber_capacity)),
                ..next
            }
        } else {
            next
        }
    }

    /// The facade after a run was acknowledged; while the runtime is up this wakes the host.
    pub open spec fn acknowledged(self, run: Seq<char>) -> RuntimeHandleView {
        if self.commands.receiving {
            RuntimeHandleView {
                observations: self.observations.push(run),
                wakes: successor(self.wakes),
                ..self
            }
        } else {
            self
        }
    }

    /// Why a command for the given runtime is not accepted, if it is not.
    pub open spec fn command_refusal(self, runtime_id: u64) -> Option<SubmitErrorView> {
        if runtime_id != self.runtime_id {
            Some(SubmitErrorView::ForeignRuntime)
        } else {
            match self.commands.refusal() {
                Some(error) => Some(submit_refusal(error)),
                None => None,
            }
        }
    }
}

impl RuntimeHandle {
    fn submit(&mut self, command: RuntimeCommand) -> (r: Result<(), SubmitError>)
        ensures
            final(self)@ == old(self)@.submitted(command@),
            match r {
                Ok(_) => old(self)@.commands.refusal() is None,
                Err(error) => old(self)@.commands.refusal() is Some && error@ == submit_refusal(
                    old(self)@.commands.refusal()->0,
                ),
            },
    {
        match self.commands.try_send(command) {
            Ok(_) => {
                self.wakes = self.wakes.wrapping_add(1);
                Ok(())
            },
            Err(SendError::Full) => Err(SubmitError::Backpressure),
            Err(SendError::Disconnected) => Err(SubmitError::Disconnected),
        }
    }

    fn next_id(&mut self) -> (r: StableId)
        ensures
            r@ == run_id_text(old(self)@.runtime_id, old(self)@.next_run_id),
            final(self)@ == (RuntimeHandleView {
                next_run_id: successor(old(self)@.next_run_id),
                ..old(self)@
            }),
    {
        let runtime = decimal(self.runtime_id);
        let sequence = decimal(self.next_run_id);
        self.next_run_id = self.next_run_id.wrapping_add(1);
        let pieces = vec!["run-", runtime.as_str(), "-", sequence.as_str()];
        proof {
            assert(Seq::new(pieces@.len(), |k: int| pieces@[k]@) =~= seq![
                "run-"@,
                runtime@,
                "-"@,
                sequence@,
            ]);
        }
        StableId::generated(joined(pieces))
    }

    fn submit_prompt(
        &mut self,
        agent: Entity,
        prompt: PromptPayload,
        options: PromptOptions,
        subscriber: Option<u64>,
    ) -> (r: Result<PendingRunHandle, SubmitError>)
        ensures
            final(self)@ == old(self)@.prompted(agent, prompt@, options@, subscriber),
            match r {
                Ok(pending) => old(self)@.commands.refusal() is None && pending@ == (
                PendingRunHandleView {
                    runtime_id: old(self)@.runtime_id,
                    stable_id: run_id_text(old(self)@.runtime_id, old(self)@.next_run_id),
                }),
                Err(error) => old(self)@.commands.refusal() is Some && error@ == submit_refusal(
                    old(self)@.commands.refusal()->0,
                ),
            },
    {
        let run_id = self.next_id();
        let command = RuntimeCommand::Prompt {
            agent,
            run_id: run_id.clone(),
            prompt,
            history: options.history,
            output_schema: options.output_schema,
            max_model_calls: options.max_model_calls,
            conversation: options.conversation,
            subscriber,
        };
        match self.submit(command) {
            Ok(_) => Ok(PendingRunHandle { runtime_id: self.runtime_id, stable_id: run_id }),
            Err(error) => Err(error),
        }
    }

    /// Submits a prompt without access to the world.
    pub fn prompt(&mut self, agent: AgentHandle, prompt: PromptPayload) -> (r: Result<
        PendingRunHandle,
        SubmitError,
    >)
        ensures
            match r {
                Ok(pending) => old(self)@.command_refusal(agent.runtime_id) is None && pending@ == (
                PendingRunHandleView {
                    runtime_id: old(self)@.runtime_id,
                    stable_id: run_id_text(old(self)@.runtime_id, old(self)@.next_run_id),
                }),
                Err(error) => old(self)@.command_refusal(agent.runtime_id) == Some(error@),
            },
            final(self)@ == (if agent.runtime_id == old(self)@.runtime_id {
                old(self)@.prompted(agent.entity, prompt@, PromptOptionsView::none(), None)
            } else {
                old(self)@
            }),
    {
        self.prompt_configured(agent, prompt, PromptOptions::default())
    }

    /// Submits a prompt with history and per-run settings.
    pub fn prompt_configured(
        &mut self,
        agent: AgentHandle,
        prompt: PromptPayload,
        options: PromptOptions,
    ) -> (r: Result<PendingRunHandle, SubmitError>)
        ensures
            match r {
                Ok(pending) => old(self)@.command_refusal(agent.runtime_id) is None && pending@ == (
                PendingRunHandleView {
                    runtime_id: old(self)@.runtime_id,
                    stable_id: run_id_text(old(self)@.runtime_id, old(self)@.next_run_id),
                }),
                Err(error) => old(self)@.command_refusal(agent.runtime_id) == Some(error@),
            },
            final(self)@ == (if agent.runtime_id == old(self)@.runtime_id {
                old(self)@.prompted(agent.entity, prompt@, options@, None)
            } else {
                old(self)@
            }),
    {
        if agent.runtime_id != self.runtime_id {
            return Err(SubmitError::ForeignRuntime);
        }
        self.submit_prompt(agent.entity, prompt, options, None)
    }

    /// Submits a prompt in a stable conversation.
    pub fn prompt_in_conversation(
        &mut self,
        agent: AgentHandle,
        conversation: StableId,
        prompt: PromptPayload,
    ) -> (r: Result<PendingRunHandle, SubmitError>)
        ensures
            match r {
                Ok(pending) => old(self)@.command_refusal(agent.runtime_id) is None && pending@ == (
                PendingRunHandleView {
                    runtime_id: old(self)@.runtime_id,
                    stable_id: run_id_text(old(self)@.runtime_id, old(self)@.next_run_id),
                }),
                Err(error) => old(self)@.command_refusal(agent.runtime_id) == Some(error@),
            },
            final(self)@ == (if agent.runtime_id == old(self)@.runtime_id {
                old(self)@.prompted(
                    agent.entity,
                    prompt@,
                    (PromptOptionsView {
                        conversation: Some(conversation@),
                        ..PromptOptionsView::none()
                    }),
                    None,
                )
            } else {
                old(self)@
            }),
    {
        let mut options = PromptOptions::default();
        options.conversation = Some(conversation);
        self.prompt_configured(agent, prompt, options)
    }

    /// Submits a prompt and creates a bounded stream of its run.
    pub fn prompt_stream(&mut self, agent: AgentHandle, prompt: PromptPayload) -> (r: Result<
        (PendingRunHandle, RunStream),
        SubmitError,
    >)
        ensures
            match r {
                Ok((pending, stream)) => {
                    let id = run_id_text(old(self)@.runtime_id, old(self)@.next_run_id);
                    &&& old(self)@.command_refusal(agent.runtime_id) is None
                    &&& pending@ == (PendingRunHandleView {
                        runtime_id: old(self)@.runtime_id,
                        stable_id: id,
                    })
                    &&& stream@ == (RunStreamView {
                        stream: old(self)@.streams.len() as u64,
                        run_id: id,
                        acknowledged: false,
                    })
                },
                Err(error) => old(self)@.command_refusal(agent.runtime_id) == Some(error@),
            },
            final(self)@ == (if agent.runtime_id == old(self)@.runtime_id {
                old(self)@.prompted_stream(agent.entity, prompt@, PromptOptionsView::none())
            } else {
                old(self)@
            }),
    {
        self.prompt_stream_configured(agent, prompt, PromptOptions::default())
    }

    /// Submits a streaming prompt with history and per-run settings.
    pub fn prompt_stream_configured(
        &mut self,
        agent: AgentHandle,
        prompt: PromptPayload,
        options: PromptOptions,
    ) -> (r: Result<(PendingRunHandle, RunStream), SubmitError>)
        ensures
            match r {
                Ok((pending, stream)) => {
                    let id = run_id_text(old(self)@.runtime_id, old(self)@.next_run_id);
                    &&& old(self)@.command_refusal(agent.runtime_id) is None
                    &&& pending@ == (PendingRunHandleView {
                        runtime_id: old(self)@.runtime_id,
                        stable_id: id,
                    })
                    &&& stream@ == (RunStreamView {
                        stream: old(self)@.streams.len() as u64,
                        run_id: id,
                        acknowledged: false,
                    })
                },
                Err(error) => old(self)@.command_refusal(agent.runtime_id) == Some(error@),
            },
            final(self)@ == (if agent.runtime_id == old(self)@.runtime_id {
                old(self)@.prompted_stream(agent.entity, prompt@, options@)
            } else {
                old(self)@
            }),
    {
        if agent.runtime_id != self.runtime_id {
            return Err(SubmitError::ForeignRuntime);
        }
        let stream: u64 = self.streams.len() as u64;
        match self.submit_prompt(agent.entity, prompt, options, Some(stream)) {
            Ok(pending) => {
                let ghost before = self.streams.deep_view();
                self.streams.push(Queue::new(self.subscriber_capacity));
                assert(self.streams.deep_view() =~= before.push(
                    QueueView::empty(self.subscriber_capacity),
                ));
                let run_id = pending.stable_id.clone();
                Ok((pending, RunStream { stream, run_id, acknowledged: false }))
            },
            Err(error) => Err(error),
        }
    }

    /// Requests cancellation of a known run.
    pub fn cancel(&mut self, run: RunHandle) -> (r: Result<(), SubmitError>)
        ensures
            match r {
                Ok(_) => old(self)@.command_refusal(run.runtime_id) is None,
                Err(error) => old(self)@.command_refusal(run.runtime_id) == Some(error@),
            },
            final(self)@ == (if run.runtime_id == old(self)@.runtime_id {
                old(self)@.submitted((RuntimeCommandView::Cancel { run: run.entity }))
            } else {
                old(self)@
            }),
    {
        if run.runtime_id != self.runtime_id {
            return Err(SubmitError::ForeignRuntime);
        }
        self.submit(RuntimeCommand::Cancel { run: run.entity })
    }

    /// Requests a new generation of dynamic capability discovery.
    pub fn refresh_discovery(&mut self, source: DiscoveryHandle) -> (r: Result<(), SubmitError>)
        ensures
            match r {
                Ok(_) => old(self)@.command_refusal(source.runtime_id) is None,
                Err(error) => old(self)@.command_refusal(source.runtime_id) == Some(error@),
            },
            final(self)@ == (if source.runtime_id == old(self)@.runtime_id {
                old(self)@.submitted(
                    (RuntimeCommandView::RefreshDiscovery { source: source.entity }),
                )
            } else {
                old(self)@
            }),
    {
        if source.runtime_id != self.runtime_id {
            return Err(SubmitError::ForeignRuntime);
        }
        self.submit(RuntimeCommand::RefreshDiscovery { source: source.entity })
    }
}

/// Bounded receiver of one run.
#[derive(Debug)]
pub struct RunStream {
    /// Number of the stream.
    pub stream: u64,
    /// Run that the stream follows.
    pub run_id: StableId,
    /// Whether the outcome of the run was acknowledged.
    pub acknowledged: bool,
}

/// What a [`RunStream`] holds.
#[verifier::ext_equal]
pub struct RunStreamView {
    pub stream: u64,
    pub run_id: Seq<char>,
    pub acknowledged: bool,
}

impl View for RunStream {
    type V = RunStreamView;

    open spec fn view(&self) -> RunStreamView {
        RunStreamView {
            stream: self.stream,
            run_id: self.run_id@,
            acknowledged: self.acknowledged,
        }
    }
}

/// What a stream gives next: an item, or nothing yet, or the end of the stream.
pub open spec fn stream_next(streams: StreamsView, stream: u64) -> Result<
    Option<StreamItemView>,
    StreamReceiveError,
> {
    if stream >= streams.len() {
        Err(StreamReceiveError::Disconnected)
    } else if streams[stream as int].items.len() > 0 {
        Ok(Some(streams[stream as int].items[0]))
    } else if streams[stream as int].sending {
        Ok(None)
    } else {
        Err(StreamReceiveError::Disconnected)
    }
}

/// Whether what a stream gives ends the run.
pub open spec fn ends_stream(next: Result<Option<StreamItemView>, StreamReceiveError>) -> bool {
    match next {
        Ok(Some(item)) => item is Finished,
        Ok(None) => false,
        Err(_) => true,
    }
}

/// The streams after one was read from.
pub open spec fn stream_read(streams: StreamsView, stream: u64) -> StreamsView {
    if stream < streams.len() {
        streams.update(stream as int, streams[stream as int].taken())
    } else {
        streams
    }
}

impl RunStream {
    fn acknowledge(&mut self, handle: &mut RuntimeHandle)
        ensures
            final(self)@ == (RunStreamView { acknowledged: true, ..old(self)@ }),
            final(handle)@ == (if old(self)@.acknowledged {
                old(handle)@
            } else {
                old(handle)@.acknowledged(old(self)@.run_id)
            }),
    {
        if !self.acknowledged {
            self.acknowledged = true;
            if handle.commands.receiving {
                let ghost before = handle.observations.deep_view();
                handle.observations.push(self.run_id.clone());
                assert(handle.observations.deep_view() =~= before.push(self.run_id@));
                handle.wakes = handle.wakes.wrapping_add(1);
            }
        }
    }

    /// Receives the next available item. The end of the run acknowledges its outcome, once.
    pub fn try_recv(&mut self, handle: &mut RuntimeHandle) -> (r: Result<
        Option<StreamItem>,
        StreamReceiveError,
    >)
        ensures
            ({
                let next = stream_next(old(handle)@.streams, old(self)@.stream);
                let read = RuntimeHandleView {
                    streams: stream_read(old(handle)@.streams, old(self)@.stream),
                    ..old(handle)@
                };
                &&& (match r {
                    Ok(item) => Ok::<Option<StreamItemView>, StreamReceiveError>(item.deep_view()),
                    Err(error) => Err::<Option<StreamItemView>, StreamReceiveError>(error),
                }) == next
                &&& final(self)@ == (RunStreamView {
                    acknowledged: old(self)@.acknowledged || ends_stream(next),
                    ..old(self)@
                })
                &&& final(handle)@ == (if ends_stream(next) && !old(self)@.acknowledged {
                    read.acknowledged(old(self)@.run_id)
                } else {
                    read
                })
            }),
    {
        let ghost before = handle.streams.deep_view();
        if self.stream >= handle.streams.len() as u64 {
            self.acknowledge(handle);
            return Err(StreamReceiveError::Disconnected);
        }
        let i: usize = self.stream as usize;
        let received = handle.streams[i].try_recv();
        assert(handle.streams.deep_view() =~= stream_read(before, self.stream));
        match received {
            Ok(item) => {
                if matches!(item, StreamItem::Finished(_)) {
                    self.acknowledge(handle);
                }
                Ok(Some(item))
            },
            Err(ReceiveError::Empty) => Ok(None),
            Err(ReceiveError::Disconnected) => {
                self.acknowledge(handle);
                Err(StreamReceiveError::Disconnected)
            },
        }
    }

    /// Gives the stream up, which acknowledges the outcome of its run.
    pub fn close(self, handle: &mut RuntimeHandle)
        ensures
            ({
                let closed = RuntimeHandleView {
                    streams: if self@.stream < old(handle)@.streams.len() {
                        old(handle)@.streams.update(
                            self@.stream as int,
                            old(handle)@.streams[self@.stream as int].unreceived(),
                        )
                    } else {
                        old(handle)@.streams
                    },
                    ..old(handle)@
                };
                final(handle)@ == (if self@.acknowledged {
                    closed
                } else {
                    closed.acknowledged(self@.run_id)
                })
            }),
    {
        let mut stream = self;
        let ghost before = handle.streams.deep_view();
        if stream.stream < handle.streams.len() as u64 {
            let i: usize = stream.stream as usize;
            handle.streams[i].stop_receiving();
            assert(handle.streams.deep_view() =~= before.update(
                stream.stream as int,
                before[stream.stream as int].unreceived(),
            ));
        }
        stream.acknowledge(handle);
    }
}

/// External side of the effect boundary.
#[derive(Debug)]
pub struct EffectIo {
    /// Requests that wait for an executor.
    pub requests: Queue<EffectRequest>,
    /// Cancellations that wait for an executor.
    pub cancellations: Queue<EffectCancellation>,
    /// Completions and deltas that wait for the next schedule pass.
    pub ingress: Queue<EffectIngress>,
    /// Counts the occasions on which the host is to be woken.
    pub wakes: u64,
}

/// What an [`EffectIo`] holds.
#[verifier::ext_equal]
pub struct EffectIoView {
    pub requests: QueueView<EffectRequestView>,
    pub cancellations: QueueView<EffectCancellation>,
    pub ingress: QueueView<EffectIngressView>,
    pub wakes: u64,
}

impl View for EffectIo {
    type V = EffectIoView;

    open spec fn view(&self) -> EffectIoView {
        EffectIoView {
            requests: self.requests@,
            cancellations: self.cancellations@,
            ingress: self.ingress@,
            wakes: self.wakes,
        }
    }
}

/// How a refusal of the ingress queue is reported.
pub open spec fn ingress_refusal(error: SendError) -> EffectIoError {
    match error {
        SendError::Full => EffectIoError::Backpressure,
        SendError::Disconnected => EffectIoError::Disconnected,
    }
}

impl EffectIoView {
    /// The boundary after a message was offered to it; an accepted one wakes the host.
    pub open spec fn told(self, message: EffectIngressView) -> EffectIoView {
        EffectIoView {
            ingress: self.ingress.offered(message),
            wakes: if self.ingress.refusal() is None {
                successor(self.wakes)
            } else {
                self.wakes
            },
            ..self
        }
    }
}

impl EffectIo {
    /// Receives submitted work.
    pub fn try_recv(&mut self) -> (r: Result<Option<EffectRequest>, EffectIoError>)
        ensures
            final(self)@ == (EffectIoView {
                requests: old(self)@.requests.taken(),
                ..old(self)@
            }),
            match r {
                Ok(Some(request)) => old(self)@.requests.items.len() > 0 && request@
                    == old(self)@.requests.items[0],
                Ok(None) => old(self)@.requests.items.len() == 0 && old(self)@.requests.sending,
                Err(error) => old(self)@.requests.items.len() == 0 && !old(self)@.requests.sending
                    && error == EffectIoError::Disconnected,
            },
    {
        match self.requests.try_recv() {
            Ok(request) => Ok(Some(request)),
            Err(ReceiveError::Empty) => Ok(None),
            Err(ReceiveError::Disconnected) => Err(EffectIoError::Disconnected),
        }
    }

    /// Receives a cancellation request.
    pub fn try_recv_cancellation(&mut self) -> (r: Result<
        Option<EffectCancellation>,
        EffectIoError,
    >)
        ensures
            final(self)@ == (EffectIoView {
                cancellations: old(self)@.cancellations.taken(),
                ..old(self)@
            }),
            match r {
                Ok(Some(cancellation)) => old(self)@.cancellations.items.len() > 0 && cancellation
                    == old(self)@.cancellations.items[0],
                Ok(None) => old(self)@.cancellations.items.len() == 0
                    && old(self)@.cancellations.sending,
                Err(error) => old(self)@.cancellations.items.len() == 0
                    && !old(self)@.cancellations.sending && error == EffectIoError::Disconnected,
            },
    {
        match self.cancellations.try_recv() {
            Ok(cancellation) => Ok(Some(cancellation)),
            Err(ReceiveError::Empty) => Ok(None),
            Err(ReceiveError::Disconnected) => Err(EffectIoError::Disconnected),
        }
    }

    fn tell(&mut self, message: EffectIngress) -> (r: Result<(), EffectIoError>)
        ensures
            final(self)@ == old(self)@.told(message@),
            match r {
                Ok(_) => old(self)@.ingress.refusal() is None,
                Err(error) => old(self)@.ingress.refusal() is Some && error == ingress_refusal(
                    old(self)@.ingress.refusal()->0,
                ),
            },
    {
        match self.ingress.try_send(message) {
            Ok(_) => {
                self.wakes = self.wakes.wrapping_add(1);
                Ok(())
            },
            Err(SendError::Full) => Err(EffectIoError::Backpressure),
            Err(SendError::Disconnected) => Err(EffectIoError::Disconnected),
        }
    }

    /// Sends a completion with explicit bounded-queue backpressure.
    pub fn try_send(&mut self, completion: EffectCompletion) -> (r: Result<(), EffectIoError>)
        ensures
            final(self)@ == old(self)@.told(EffectIngressView::Completion(completion@)),
            match r {
                Ok(_) => old(self)@.ingress.refusal() is None,
                Err(error) => old(self)@.ingress.refusal() is Some && error == ingress_refusal(
                    old(self)@.ingress.refusal()->0,
                ),
            },
    {
        self.tell(EffectIngress::Completion(completion))
    }

    /// Reports a caught executor panic as a completion.
    pub fn try_send_panic(&mut self, operation: Entity, generation: u64, message: String) -> (r:
        Result<(), EffectIoError>)
        ensures
            final(self)@ == old(self)@.told(
                EffectIngressView::Completion(
                    (EffectCompletionView {
                        operation,
                        generation,
                        result: Err(CanonicalErrorView::ExecutorPanicked(message@)),
                    }),
                ),
            ),
            match r {
                Ok(_) => old(self)@.ingress.refusal() is None,
                Err(error) => old(self)@.ingress.refusal() is Some && error == ingress_refusal(
                    old(self)@.ingress.refusal()->0,
                ),
            },
    {
        self.try_send(
            EffectCompletion {
                operation,
                generation,
                result: Err(CanonicalError::ExecutorPanicked(message)),
            },
        )
    }

    /// Sends a delta through the same bounded queue as completions.
    pub fn try_send_delta(&mut self, delta: EffectDelta) -> (r: Result<(), EffectIoError>)
        ensures
            final(self)@ == old(self)@.told(EffectIngressView::Delta(delta@)),
            match r {
                Ok(_) => old(self)@.ingress.refusal() is None,
                Err(error) => old(self)@.ingress.refusal() is Some && error == ingress_refusal(
                    old(self)@.ingress.refusal()->0,
                ),
            },
    {
        self.tell(EffectIngress::Delta(delta))
    }

    /// Shuts the executor side down: what waited for it is dropped, and it sends nothing more.
    pub fn shut_down(&mut self)
        ensures
            final(self)@ == (EffectIoView {
                requests: old(self)@.requests.unreceived(),
                cancellations: old(self)@.cancellations.unreceived(),
                ingress: old(self)@.ingress.unsent(),
                ..old(self)@
            }),
    {
        self.requests.stop_receiving();
        self.cancellations.stop_receiving();
        self.ingress.stop_sending();
    }
}

} // verus!
