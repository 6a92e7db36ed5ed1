//! One run of the agentic loop, step by step.
//!
//! A [`Run`] decides; whoever drives it acts. It says which request to send to the
//! model ([`Run::request`]) and is told what happens ([`Run::step`]): what the model
//! streams, how tool calls end, whether the run has been cancelled.
use crate::error::{Error, ErrorView};
use crate::json::{Value, ValueView};
use crate::model::{
    assistant_message, tool_calls_message, Message, MessageList, MessageView, ModelRequest,
    ModelRequestView, ModelStreamChunk, ModelStreamChunkView, ToolCall, ToolCallView,
};
use crate::runner::batch::{
    all_settled, fresh_batch, result_messages, settled, ToolBatch, ToolBatchView,
};
use crate::runner::{AgentEvent, AgentEventView, RunEvent, RunEventView};
use crate::tools::{
    outcome_value, settle_outcome, ToolCallReply, ToolCallReplyView, ToolCallRequest,
    ToolCallRequestView, ToolDefinition, ToolDefinitionView,
};
use crate::views::{clone_all, clone_option, lemma_seq_view_push, option_view, seq_view, share, share_all};
use std::sync::Arc;
use vstd::prelude::*;

verus! {

/// What a run is waiting for.
enum Phase {
    /// To be told whether it has been cancelled, before it asks the model.
    Checkpoint,
    /// What the model streams.
    Streaming { calls: Vec<Arc<ToolCall>>, reply: String },
    /// How the tool calls end.
    Tools(ToolBatch),
    /// Nothing: the run is over.
    Finished,
}

/// The model of what a run is waiting for.
#[verifier::ext_equal]
pub ghost enum PhaseView {
    Checkpoint,
    Streaming { calls: Seq<ToolCallView>, reply: Seq<char> },
    Tools(ToolBatchView),
    Finished,
}

impl View for Phase {
    type V = PhaseView;

    closed spec fn view(&self) -> PhaseView {
        match self {
            Phase::Checkpoint => PhaseView::Checkpoint,
            Phase::Streaming { calls, reply } => PhaseView::Streaming {
                calls: seq_view(calls@),
                reply: reply@,
            },
            Phase::Tools(batch) => PhaseView::Tools(batch@),
            Phase::Finished => PhaseView::Finished,
        }
    }
}

/// One run of the agentic loop.
pub struct Run {
    run_id: usize,
    system: String,
    output_schema: Option<Value>,
    tools: Vec<ToolDefinition>,
    thread: MessageList,
    phase: Phase,
}

/// The model of a [`Run`].
#[verifier::ext_equal]
pub ghost struct RunView {
    pub run_id: usize,
    pub system: Seq<char>,
    pub output_schema: Option<ValueView>,
    pub tools: Seq<ToolDefinitionView>,
    pub thread: Seq<MessageView>,
    pub phase: PhaseView,
}

impl View for Run {
    type V = RunView;

    closed spec fn view(&self) -> RunView {
        RunView {
            run_id: self.run_id,
            system: self.system@,
            output_schema: option_view(self.output_schema),
            tools: seq_view(self.tools@),
            thread: self.thread@,
            phase: self.phase@,
        }
    }
}

/// Something that a run is told.
pub enum RunInput {
    /// Whether the run has been cancelled by now.
    Checkpoint { cancelled: bool },
    /// The next chunk that the model streams.
    Chunk(ModelStreamChunk),
    /// The model failed.
    ModelFailed(Error),
    /// The model has streamed everything.
    StreamEnded,
    /// The run was cancelled while the model was streaming.
    Cancel,
    /// A tool call has ended.
    Reply(ToolCallReply),
}

/// The model of a [`RunInput`].
#[verifier::ext_equal]
pub ghost enum RunInputView {
    Checkpoint { cancelled: bool },
    Chunk(ModelStreamChunkView),
    ModelFailed(ErrorView),
    StreamEnded,
    Cancel,
    Reply(ToolCallReplyView),
}

impl View for RunInput {
    type V = RunInputView;

    open spec fn view(&self) -> RunInputView {
        match self {
            RunInput::Checkpoint { cancelled } => RunInputView::Checkpoint {
                cancelled: *cancelled,
            },
            RunInput::Chunk(chunk) => RunInputView::Chunk(chunk@),
            RunInput::ModelFailed(error) => RunInputView::ModelFailed(error@),
            RunInput::StreamEnded => RunInputView::StreamEnded,
            RunInput::Cancel => RunInputView::Cancel,
            RunInput::Reply(reply) => RunInputView::Reply(reply@),
        }
    }
}

/// What whoever drives a run has to do next.
#[derive(Debug, Clone, Copy, PartialEq, Eq, Structural)]
pub enum Waiting {
    /// Say whether the run has been cancelled.
    ForCheckpoint,
    /// Ask the model, and say what it streams.
    ForModel,
    /// See that the tool calls are carried out, and say how they end.
    ForTools,
    /// Nothing more.
    ForNothing,
}

/// What is to be done next in a phase.
pub open spec fn waiting_in(phase: PhaseView) -> Waiting {
    match phase {
        PhaseView::Checkpoint => Waiting::ForCheckpoint,
        PhaseView::Streaming { .. } => Waiting::ForModel,
        PhaseView::Tools(_) => Waiting::ForTools,
        PhaseView::Finished => Waiting::ForNothing,
    }
}

/// The request that a run sends to the model: the whole conversation so far, under
/// the agent's instructions and schema, with the runner's tools.
pub open spec fn request_of(run: RunView) -> ModelRequestView {
    ModelRequestView {
        messages: run.thread,
        system: Some(run.system),
        output_schema: run.output_schema,
        tools: run.tools,
    }
}

/// The requests to carry out tool calls, in order.
pub open spec fn call_events(calls: Seq<ToolCallView>) -> Seq<AgentEventView> {
    Seq::new(
        calls.len(),
        |i: int| AgentEventView::ToolCall(ToolCallRequestView { details: calls[i], index: i }),
    )
}

/// The conversation once the model has replied; an empty reply adds nothing.
pub open spec fn with_reply(thread: Seq<MessageView>, reply: Seq<char>) -> Seq<MessageView> {
    if reply.len() == 0 {
        thread
    } else {
        thread.push(assistant_message(reply))
    }
}

/// What a run does with a chunk while the model is streaming.
pub open spec fn chunk_step(
    calls: Seq<ToolCallView>,
    reply: Seq<char>,
    chunk: ModelStreamChunkView,
) -> (PhaseView, Seq<AgentEventView>) {
    match chunk {
        ModelStreamChunkView::Thinking(text) => (
            PhaseView::Streaming { calls, reply },
            seq![AgentEventView::ThinkingDelta(text)],
        ),
        ModelStreamChunkView::TextDelta(text) => (
            PhaseView::Streaming { calls, reply: reply + text },
            seq![AgentEventView::TextDelta(text)],
        ),
        ModelStreamChunkView::ToolCall(call) => (
            PhaseView::Streaming { calls: calls.push(call), reply },
            Seq::empty(),
        ),
        ModelStreamChunkView::Usage(usage) => (
            PhaseView::Streaming { calls, reply },
            seq![AgentEventView::Usage(usage)],
        ),
    }
}

/// What a run does when the model has streamed everything: without tool calls it is
/// over, with tool calls it has them carried out.
pub open spec fn end_step(run: RunView, calls: Seq<ToolCallView>, reply: Seq<char>) -> (
    RunView,
    Seq<AgentEventView>,
) {
    if calls.len() == 0 {
        let thread = with_reply(run.thread, reply);
        (
            RunView { thread, phase: PhaseView::Finished, ..run },
            seq![AgentEventView::TurnFinish { thread }],
        )
    } else {
        (
            RunView {
                thread: run.thread.push(tool_calls_message(calls)),
                phase: PhaseView::Tools(fresh_batch(calls)),
                ..run
            },
            call_events(calls),
        )
    }
}

/// The batch once it has been told of a reply. A reply to a call that is not there,
/// or that has its result, changes nothing.
pub open spec fn replied(batch: ToolBatchView, reply: ToolCallReplyView) -> ToolBatchView {
    settled(batch, reply.index, outcome_value(batch.calls[reply.index].name, reply.outcome))
}

/// What a run does when a tool call has ended: once all have, the results join the
/// conversation and the model is asked again.
pub open spec fn reply_step(run: RunView, batch: ToolBatchView, reply: ToolCallReplyView) -> RunView {
    let after = replied(batch, reply);
    if all_settled(after) {
        RunView {
            thread: run.thread + result_messages(after),
            phase: PhaseView::Checkpoint,
            ..run
        }
    } else {
        RunView { phase: PhaseView::Tools(after), ..run }
    }
}

/// One step of a run: where it stands after the input, and what it reports. Inputs
/// that do not fit what the run is waiting for change nothing.
pub open spec fn run_step(run: RunView, input: RunInputView) -> (RunView, Seq<AgentEventView>) {
    let over = RunView { phase: PhaseView::Finished, ..run };
    match (run.phase, input) {
        (PhaseView::Checkpoint, RunInputView::Checkpoint { cancelled }) => if cancelled {
            (over, seq![AgentEventView::Cancelled])
        } else {
            (
                RunView {
                    phase: PhaseView::Streaming { calls: Seq::empty(), reply: Seq::empty() },
                    ..run
                },
                Seq::empty(),
            )
        },
        (PhaseView::Streaming { calls, reply }, RunInputView::Chunk(chunk)) => {
            let (phase, events) = chunk_step(calls, reply, chunk);
            (RunView { phase, ..run }, events)
        },
        (PhaseView::Streaming { .. }, RunInputView::ModelFailed(error)) => (
            over,
            seq![AgentEventView::Error(error)],
        ),
        (PhaseView::Streaming { .. }, RunInputView::Cancel) => (
            over,
            seq![AgentEventView::Cancelled],
        ),
        (PhaseView::Streaming { calls, reply }, RunInputView::StreamEnded) => end_step(
            run,
            calls,
            reply,
        ),
        (PhaseView::Tools(batch), RunInputView::Reply(reply)) => (
            reply_step(run, batch, reply),
            Seq::empty(),
        ),
        _ => (run, Seq::empty()),
    }
}

/// Events, tagged with the run.
pub open spec fn tagged(run_id: usize, events: Seq<AgentEventView>) -> Seq<RunEventView> {
    Seq::new(events.len(), |i: int| RunEventView { run_id, agent_event: events[i] })
}

/// A run as it starts.
pub open spec fn started_run(
    run_id: usize,
    system: Seq<char>,
    output_schema: Option<ValueView>,
    tools: Seq<ToolDefinitionView>,
    thread: Seq<MessageView>,
) -> RunView {
    RunView { run_id, system, output_schema, tools, thread, phase: PhaseView::Checkpoint }
}

/// Nothing to report.
fn no_events() -> (res: Vec<RunEvent>)
    ensures
        forall|run_id: usize| seq_view(res@) == #[trigger] tagged(run_id, Seq::empty()),
{
    let res: Vec<RunEvent> = Vec::new();
    assert forall|run_id: usize| seq_view(res@) == #[trigger] tagged(run_id, Seq::empty()) by {
        assert(seq_view(res@) =~= tagged(run_id, Seq::empty()));
    }
    res
}

/// One thing to report.
fn one_event(run_id: usize, agent_event: AgentEvent) -> (res: Vec<RunEvent>)
    ensures
        seq_view(res@) == tagged(run_id, seq![agent_event@]),
{
    let mut res: Vec<RunEvent> = Vec::new();
    res.push(RunEvent { run_id, agent_event });
    assert(seq_view(res@) =~= tagged(run_id, seq![agent_event@]));
    res
}

/// The requests to carry out tool calls.
fn request_calls(run_id: usize, calls: &Vec<Arc<ToolCall>>) -> (res: Vec<RunEvent>)
    ensures
        seq_view(res@) == tagged(run_id, call_events(seq_view(calls@))),
{
    let ghost expected = call_events(seq_view(calls@));
    let mut res: Vec<RunEvent> = Vec::new();
    let mut i: usize = 0;
    while i < calls.len()
        invariant
            i <= calls@.len(),
            expected == call_events(seq_view(calls@)),
            res@.len() == i,
            forall|j: int|
                0 <= j < i ==> (#[trigger] res@[j])@ == (RunEventView {
                    run_id,
                    agent_event: expected[j],
                }),
        decreases calls@.len() - i,
    {
        let request = ToolCallRequest::new(share(&calls[i]), i);
        res.push(RunEvent { run_id, agent_event: AgentEvent::ToolCall(request) });
        i = i + 1;
    }
    assert(seq_view(res@) =~= tagged(run_id, expected));
    res
}

impl Run {
    /// Starts a run. It reports that it has begun.
    pub fn start(
        run_id: usize,
        system: String,
        output_schema: Option<Value>,
        tools: Vec<ToolDefinition>,
        thread: MessageList,
    ) -> (res: (Run, Vec<RunEvent>))
        ensures
            res.0@ == started_run(
                run_id,
                system@,
                option_view(output_schema),
                seq_view(tools@),
                thread@,
            ),
            seq_view(res.1@) == tagged(run_id, seq![AgentEventView::TurnStart]),
    {
        let run = Run { run_id, system, output_schema, tools, thread, phase: Phase::Checkpoint };
        (run, one_event(run_id, AgentEvent::TurnStart))
    }

    /// What whoever drives the run has to do next.
    pub fn waiting(&self) -> (res: Waiting)
        ensures
            res == waiting_in(self@.phase),
    {
        match self.phase {
            Phase::Checkpoint => Waiting::ForCheckpoint,
            Phase::Streaming { .. } => Waiting::ForModel,
            Phase::Tools(_) => Waiting::ForTools,
            Phase::Finished => Waiting::ForNothing,
        }
    }

    /// The request to send to the model.
    pub fn request(&self) -> (res: ModelRequest)
        ensures
            res@ == request_of(self@),
    {
        ModelRequest {
            messages: self.thread.clone(),
            system: Some(self.system.clone()),
            output_schema: clone_option(&self.output_schema),
            tools: clone_all(&self.tools),
        }
    }

    /// Takes in one input and says what there is to report.
    pub fn step(&mut self, input: RunInput) -> (res: Vec<RunEvent>)
        ensures
            final(self)@ == run_step(old(self)@, input@).0,
            seq_view(res@) == tagged(old(self)@.run_id, run_step(old(self)@, input@).1),
    {
        let run_id: usize = self.run_id;
        let mut phase = Phase::Finished;
        std::mem::swap(&mut phase, &mut self.phase);
        match (phase, input) {
            (Phase::Checkpoint, RunInput::Checkpoint { cancelled }) => if cancelled {
                one_event(run_id, AgentEvent::Cancelled)
            } else {
                self.phase = Phase::Streaming { calls: Vec::new(), reply: String::new() };
                assert(self@.phase->Streaming_calls =~= Seq::empty());
                no_events()
            },
            (Phase::Streaming { calls, reply }, RunInput::Chunk(chunk)) => self.take_chunk(
                calls,
                reply,
                chunk,
            ),
            (Phase::Streaming { .. }, RunInput::ModelFailed(error)) => one_event(
                run_id,
                AgentEvent::Error(error),
            ),
            (Phase::Streaming { .. }, RunInput::Cancel) => one_event(run_id, AgentEvent::Cancelled),
            (Phase::Streaming { calls, reply }, RunInput::StreamEnded) => self.end_turn(calls, reply),
            (Phase::Tools(batch), RunInput::Reply(reply)) => {
                self.take_reply(batch, reply);
                no_events()
            },
            (same, _) => {
                self.phase = same;
                no_events()
            },
        }
    }

    /// Takes in a chunk while the model is streaming.
    fn take_chunk(&mut self, calls: Vec<Arc<ToolCall>>, reply: String, chunk: ModelStreamChunk)
        -> (res: Vec<RunEvent>)
        ensures
            final(self)@ == (RunView {
                phase: chunk_step(seq_view(calls@), reply@, chunk@).0,
                ..old(self)@
            }),
            seq_view(res@) == tagged(
                old(self)@.run_id,
                chunk_step(seq_view(calls@), reply@, chunk@).1,
            ),
    {
        let run_id: usize = self.run_id;
        let mut calls = calls;
        let mut reply = reply;
        let ghost before = calls@;
        match chunk {
            ModelStreamChunk::Thinking(text) => {
                self.phase = Phase::Streaming { calls, reply };
                one_event(run_id, AgentEvent::ThinkingDelta(text))
            },
            ModelStreamChunk::TextDelta(text) => {
                reply.append(text.as_str());
                self.phase = Phase::Streaming { calls, reply };
                one_event(run_id, AgentEvent::TextDelta(text))
            },
            ModelStreamChunk::ToolCall(call) => {
                calls.push(Arc::new(call));
                proof {
                    lemma_seq_view_push(before, calls@.last());
                }
                self.phase = Phase::Streaming { calls, reply };
                no_events()
            },
            ModelStreamChunk::Usage(usage) => {
                self.phase = Phase::Streaming { calls, reply };
                one_event(run_id, AgentEvent::Usage(usage))
            },
        }
    }

    /// Ends the model's turn.
    fn end_turn(&mut self, calls: Vec<Arc<ToolCall>>, reply: String) -> (res: Vec<RunEvent>)
        requires
            old(self)@.phase is Finished,
        ensures
            final(self)@ == end_step(old(self)@, seq_view(calls@), reply@).0,
            seq_view(res@) == tagged(
                old(self)@.run_id,
                end_step(old(self)@, seq_view(calls@), reply@).1,
            ),
    {
        let run_id: usize = self.run_id;
        assert(seq_view(calls@).len() == calls@.len());
        if calls.len() == 0 {
            if !reply.as_str().is_empty() {
                self.thread.push(Message::assistant(reply));
            }
            one_event(run_id, AgentEvent::TurnFinish { thread: self.thread.clone() })
        } else {
            self.thread.push(Message::tool_calls(share_all(&calls)));
            let events = request_calls(run_id, &calls);
            self.phase = Phase::Tools(ToolBatch::new(calls));
            events
        }
    }

    /// Takes in how a tool call has ended.
    fn take_reply(&mut self, batch: ToolBatch, reply: ToolCallReply)
        ensures
            final(self)@ == reply_step(old(self)@, batch@, reply@),
    {
        let mut batch = batch;
        let index: usize = reply.index;
        if index < batch.len() {
            let result = settle_outcome(batch.call(index).name.as_str(), reply.outcome);
            batch.settle(index, result);
        }
        if batch.is_settled() {
            batch.append_to(&mut self.thread);
            self.phase = Phase::Checkpoint;
        } else {
            self.phase = Phase::Tools(batch);
        }
    }
}

} // verus!
