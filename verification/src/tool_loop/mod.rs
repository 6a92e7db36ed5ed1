//! An agentic loop that carries out tool calls itself.
//!
//! The tools come from a registry, and an authorization policy may stand in front of
//! them. Each call goes through its own lifecycle: a call to a tool that is not
//! registered is answered at once and silently; a call that requires approval waits
//! for the verdict and either starts or is denied; a call that has started ends with
//! a result or an error. Once every call of a turn has its answer, the answers join
//! the conversation in the order of the calls and the model is asked again.
//!
//! A [`LoopRun`] decides; whoever drives it acts. What the model gets to read for
//! calls that did not run, or failed, is a matter of [`Wording`].
use crate::agent::Agent;
use crate::auth::AuthManager;
use crate::error::{Error, ErrorView};
use crate::json::{Value, ValueView};
use crate::model::{
    tool_calls_message, Message, MessageList, MessageView, ModelRequest, ModelRequestView,
    ModelStreamChunk, ModelStreamChunkView, ToolCall, ToolCallView,
};
use crate::runner::batch::{
    all_settled, batch_wf, result_messages, settled, ToolBatch, ToolBatchView,
};
use crate::tools::{Tool, ToolDefinition, ToolDefinitionView, ToolRegistry};
use crate::views::{
    clone_all, clone_option, lemma_seq_view_push, option_view, result_view, seq_view, share, share_all,
};
use std::marker::PhantomData;
use std::sync::Arc;
use vstd::prelude::*;

pub mod laws;

verus! {

/// What the model gets to read for calls that did not run, or failed.
pub trait Wording {
    /// For a call to a tool that is not registered.
    spec fn unknown_value(name: Seq<char>) -> ValueView;

    /// For a call that was denied.
    spec fn denied_value(reason: Seq<char>) -> ValueView;

    /// For a call that failed.
    spec fn failed_value(error: ErrorView) -> ValueView;

    /// For a call to a tool that is not registered.
    fn unknown(name: &str) -> (res: Value)
        ensures
            res@ == Self::unknown_value(name@),
    ;

    /// For a call that was denied.
    fn denied(reason: &str) -> (res: Value)
        ensures
            res@ == Self::denied_value(reason@),
    ;

    /// For a call that failed.
    fn failed(error: &Error) -> (res: Value)
        ensures
            res@ == Self::failed_value(error@),
    ;
}

/// What stands in the way of a tool call.
#[derive(Debug, Clone, Copy, PartialEq, Eq, Structural)]
pub enum Gate {
    /// There is no such tool.
    Unknown,
    /// Nothing: it may run.
    Open,
    /// It requires approval.
    Guarded,
}

/// Where a tool call stands.
#[derive(Debug, Clone, Copy, PartialEq, Eq, Structural)]
pub enum Stage {
    /// It waits for approval.
    Guarded,
    /// It runs.
    Running,
    /// It has its answer.
    Over,
}

/// What a loop is waiting for.
enum LoopPhase {
    Streaming { calls: Vec<Arc<ToolCall>> },
    Tools { batch: ToolBatch, stages: Vec<Stage> },
    Finished,
}

/// The model of what a loop is waiting for: what the model streams, how the tool
/// calls go, or nothing.
#[verifier::ext_equal]
pub ghost enum LoopPhaseView {
    Streaming { calls: Seq<ToolCallView> },
    Tools { batch: ToolBatchView, stages: Seq<Stage> },
    Finished,
}

impl View for LoopPhase {
    type V = LoopPhaseView;

    closed spec fn view(&self) -> LoopPhaseView {
        match self {
            LoopPhase::Streaming { calls } => LoopPhaseView::Streaming { calls: seq_view(calls@) },
            LoopPhase::Tools { batch, stages } => LoopPhaseView::Tools {
                batch: batch@,
                stages: stages@,
            },
            LoopPhase::Finished => LoopPhaseView::Finished,
        }
    }
}

/// One run of the loop.
pub struct LoopRun<W: Wording> {
    system: String,
    output_schema: Option<Value>,
    tools: Vec<ToolDefinition>,
    thread: MessageList,
    phase: LoopPhase,
    wording: PhantomData<W>,
}

/// The model of a [`LoopRun`].
#[verifier::ext_equal]
pub ghost struct LoopView {
    pub system: Seq<char>,
    pub output_schema: Option<ValueView>,
    pub tools: Seq<ToolDefinitionView>,
    pub thread: Seq<MessageView>,
    pub phase: LoopPhaseView,
}

impl<W: Wording> View for LoopRun<W> {
    type V = LoopView;

    closed spec fn view(&self) -> LoopView {
        LoopView {
            system: self.system@,
            output_schema: option_view(self.output_schema),
            tools: seq_view(self.tools@),
            thread: self.thread@,
            phase: self.phase@,
        }
    }
}

/// Something that a loop is told.
pub enum LoopInput {
    /// The next chunk that the model streams.
    Chunk(ModelStreamChunk),
    /// The model failed.
    ModelFailed(Error),
    /// The model has streamed everything; what stands in the way of each of the
    /// tool calls.
    StreamEnded { gates: Vec<Gate> },
    /// A call that waited for approval is allowed, or is denied for a reason.
    Verdict { index: usize, denied: Option<String> },
    /// A call that ran has ended.
    ToolEnded { index: usize, outcome: Result<Value, Error> },
}

/// The model of a [`LoopInput`].
#[verifier::ext_equal]
pub ghost enum LoopInputView {
    Chunk(ModelStreamChunkView),
    ModelFailed(ErrorView),
    StreamEnded { gates: Seq<Gate> },
    Verdict { index: int, denied: Option<Seq<char>> },
    ToolEnded { index: int, outcome: Result<ValueView, ErrorView> },
}

impl View for LoopInput {
    type V = LoopInputView;

    open spec fn view(&self) -> LoopInputView {
        match self {
            LoopInput::Chunk(chunk) => LoopInputView::Chunk(chunk@),
            LoopInput::ModelFailed(error) => LoopInputView::ModelFailed(error@),
            LoopInput::StreamEnded { gates } => LoopInputView::StreamEnded { gates: gates@ },
            LoopInput::Verdict { index, denied } => LoopInputView::Verdict {
                index: *index as int,
                denied: option_view(*denied),
            },
            LoopInput::ToolEnded { index, outcome } => LoopInputView::ToolEnded {
                index: *index as int,
                outcome: result_view(*outcome),
            },
        }
    }
}

/// What a loop reports.
#[derive(Debug)]
pub enum LoopEvent {
    /// A registered tool is about to run.
    Started { index: usize, name: String, args: Value },
    /// A call was denied; the tool does not run.
    Denied { index: usize, name: String, reason: String },
    /// A tool returned.
    Done { index: usize, name: String, result: Value },
    /// A tool failed.
    Failed { index: usize, name: String, error: Error },
    /// A chunk of the model's thinking.
    Thinking(String),
    /// A chunk of the model's text.
    Text(String),
    /// The model failed. Nothing comes after it.
    ModelFailed(Error),
}

/// The model of a [`LoopEvent`].
#[verifier::ext_equal]
pub ghost enum LoopEventView {
    Started { index: int, name: Seq<char>, args: ValueView },
    Denied { index: int, name: Seq<char>, reason: Seq<char> },
    Done { index: int, name: Seq<char>, result: ValueView },
    Failed { index: int, name: Seq<char>, error: ErrorView },
    Thinking(Seq<char>),
    Text(Seq<char>),
    ModelFailed(ErrorView),
}

impl View for LoopEvent {
    type V = LoopEventView;

    open spec fn view(&self) -> LoopEventView {
        match self {
            LoopEvent::Started { index, name, args } => LoopEventView::Started {
                index: *index as int,
                name: name@,
                args: args@,
            },
            LoopEvent::Denied { index, name, reason } => LoopEventView::Denied {
                index: *index as int,
                name: name@,
                reason: reason@,
            },
            LoopEvent::Done { index, name, result } => LoopEventView::Done {
                index: *index as int,
                name: name@,
                result: result@,
            },
            LoopEvent::Failed { index, name, error } => LoopEventView::Failed {
                index: *index as int,
                name: name@,
                error: error@,
            },
            LoopEvent::Thinking(text) => LoopEventView::Thinking(text@),
            LoopEvent::Text(text) => LoopEventView::Text(text@),
            LoopEvent::ModelFailed(error) => LoopEventView::ModelFailed(error@),
        }
    }
}

/// What the events of a loop are reported as.
pub trait Report: View + Sized {
    /// What one event is reported as.
    spec fn reported(event: LoopEventView) -> Self::V;

    /// Reports one event.
    fn report(event: LoopEvent) -> (res: Self)
        ensures
            res@ == Self::reported(event@),
    ;
}

/// What events are reported as, in order.
pub open spec fn all_reported<E: Report>(events: Seq<LoopEventView>) -> Seq<E::V> {
    Seq::new(events.len(), |i: int| E::reported(events[i]))
}

/// Reports events, in order.
pub fn report_all<E: Report>(events: Vec<LoopEvent>) -> (res: Vec<E>)
    ensures
        seq_view(res@) == all_reported::<E>(seq_view(events@)),
{
    let ghost all = events@;
    let mut res: Vec<E> = Vec::new();
    for event in iter: events
        invariant
            iter.seq() == all,
            res@.len() == iter.index(),
            forall|j: int| 0 <= j < res@.len() ==> (#[trigger] res@[j])@ == E::reported(all[j]@),
    {
        res.push(E::report(event));
    }
    assert(seq_view(res@) =~= all_reported::<E>(seq_view(all)));
    res
}

/// The request that a loop sends to the model.
pub open spec fn loop_request(run: LoopView) -> ModelRequestView {
    ModelRequestView {
        messages: run.thread,
        system: Some(run.system),
        output_schema: run.output_schema,
        tools: run.tools,
    }
}

/// What stands in the way of call `i`. A call that nothing is said of is taken for
/// one to an unknown tool.
pub open spec fn gate_at(gates: Seq<Gate>, i: int) -> Gate {
    if 0 <= i < gates.len() {
        gates[i]
    } else {
        Gate::Unknown
    }
}

/// Where a call stands to begin with.
pub open spec fn first_stage(gate: Gate) -> Stage {
    match gate {
        Gate::Unknown => Stage::Over,
        Gate::Open => Stage::Running,
        Gate::Guarded => Stage::Guarded,
    }
}

/// Where the calls stand to begin with.
pub open spec fn first_stages(calls: Seq<ToolCallView>, gates: Seq<Gate>) -> Seq<Stage> {
    Seq::new(calls.len(), |i: int| first_stage(gate_at(gates, i)))
}

/// The calls to begin with: those to unknown tools have their answer.
pub open spec fn first_batch<W: Wording>(calls: Seq<ToolCallView>, gates: Seq<Gate>) -> ToolBatchView {
    ToolBatchView {
        calls,
        results: Seq::new(
            calls.len(),
            |i: int|
                if gate_at(gates, i) == Gate::Unknown {
                    Some(W::unknown_value(calls[i].name))
                } else {
                    None
                },
        ),
    }
}

/// A call is about to run.
pub open spec fn started(index: int, call: ToolCallView) -> LoopEventView {
    LoopEventView::Started { index, name: call.name, args: call.args }
}

/// The calls among the first `n` that run at once are reported, in order.
pub open spec fn first_events(calls: Seq<ToolCallView>, gates: Seq<Gate>, n: int) -> Seq<LoopEventView>
    decreases n,
{
    if n <= 0 {
        Seq::empty()
    } else {
        let before = first_events(calls, gates, n - 1);
        if gate_at(gates, n - 1) == Gate::Open {
            before.push(started(n - 1, calls[n - 1]))
        } else {
            before
        }
    }
}

/// A loop whose tool calls have come to where they are: it goes on to ask the model
/// once all of them have their answers.
pub open spec fn with_calls(run: LoopView, batch: ToolBatchView, stages: Seq<Stage>) -> LoopView {
    if all_settled(batch) {
        LoopView {
            thread: run.thread + result_messages(batch),
            phase: LoopPhaseView::Streaming { calls: Seq::empty() },
            ..run
        }
    } else {
        LoopView { phase: LoopPhaseView::Tools { batch, stages }, ..run }
    }
}

/// What a loop does when the model has streamed everything.
pub open spec fn loop_end_step<W: Wording>(run: LoopView, calls: Seq<ToolCallView>, gates: Seq<Gate>) -> (
    LoopView,
    Seq<LoopEventView>,
) {
    if calls.len() == 0 {
        (LoopView { phase: LoopPhaseView::Finished, ..run }, Seq::empty())
    } else {
        let begun = LoopView { thread: run.thread.push(tool_calls_message(calls)), ..run };
        (
            with_calls(begun, first_batch::<W>(calls, gates), first_stages(calls, gates)),
            first_events(calls, gates, calls.len() as int),
        )
    }
}

/// Call `index` is there and stands at `stage`.
pub open spec fn stands_at(batch: ToolBatchView, stages: Seq<Stage>, index: int, stage: Stage) -> bool {
    0 <= index < batch.calls.len() && index < stages.len() && stages[index] == stage
}

/// What a loop does when the verdict on a call is there.
pub open spec fn verdict_step<W: Wording>(
    run: LoopView,
    batch: ToolBatchView,
    stages: Seq<Stage>,
    index: int,
    denied: Option<Seq<char>>,
) -> (LoopView, Seq<LoopEventView>) {
    if !stands_at(batch, stages, index, Stage::Guarded) {
        (run, Seq::empty())
    } else {
        let call = batch.calls[index];
        match denied {
            None => (
                LoopView {
                    phase: LoopPhaseView::Tools {
                        batch,
                        stages: stages.update(index, Stage::Running),
                    },
                    ..run
                },
                seq![started(index, call)],
            ),
            Some(reason) => (
                with_calls(
                    run,
                    settled(batch, index, W::denied_value(reason)),
                    stages.update(index, Stage::Over),
                ),
                seq![LoopEventView::Denied { index, name: call.name, reason }],
            ),
        }
    }
}

/// What a loop does when a call that ran has ended.
pub open spec fn tool_step<W: Wording>(
    run: LoopView,
    batch: ToolBatchView,
    stages: Seq<Stage>,
    index: int,
    outcome: Result<ValueView, ErrorView>,
) -> (LoopView, Seq<LoopEventView>) {
    if !stands_at(batch, stages, index, Stage::Running) {
        (run, Seq::empty())
    } else {
        let name = batch.calls[index].name;
        let value = match outcome {
            Ok(result) => result,
            Err(error) => W::failed_value(error),
        };
        (
            with_calls(run, settled(batch, index, value), stages.update(index, Stage::Over)),
            match outcome {
                Ok(result) => seq![LoopEventView::Done { index, name, result }],
                Err(error) => seq![LoopEventView::Failed { index, name, error }],
            },
        )
    }
}

/// One step of a loop: where it stands after the input, and what it reports. Inputs
/// that do not fit what the loop is waiting for change nothing.
pub open spec fn loop_step<W: Wording>(run: LoopView, input: LoopInputView) -> (
    LoopView,
    Seq<LoopEventView>,
) {
    match (run.phase, input) {
        (LoopPhaseView::Streaming { calls }, LoopInputView::Chunk(chunk)) => match chunk {
            ModelStreamChunkView::Thinking(text) => (run, seq![LoopEventView::Thinking(text)]),
            ModelStreamChunkView::TextDelta(text) => (run, seq![LoopEventView::Text(text)]),
            ModelStreamChunkView::ToolCall(call) => (
                LoopView { phase: LoopPhaseView::Streaming { calls: calls.push(call) }, ..run },
                Seq::empty(),
            ),
            ModelStreamChunkView::Usage(_) => (run, Seq::empty()),
        },
        (LoopPhaseView::Streaming { .. }, LoopInputView::ModelFailed(error)) => (
            LoopView { phase: LoopPhaseView::Finished, ..run },
            seq![LoopEventView::ModelFailed(error)],
        ),
        (LoopPhaseView::Streaming { calls }, LoopInputView::StreamEnded { gates }) => loop_end_step::<
            W,
        >(run, calls, gates),
        (
            LoopPhaseView::Tools { batch, stages },
            LoopInputView::Verdict { index, denied },
        ) => verdict_step::<W>(run, batch, stages, index, denied),
        (
            LoopPhaseView::Tools { batch, stages },
            LoopInputView::ToolEnded { index, outcome },
        ) => tool_step::<W>(run, batch, stages, index, outcome),
        _ => (run, Seq::empty()),
    }
}

/// A policy, asked about a call by its name and its arguments, may answer this:
/// whether the call requires approval.
pub open spec fn may_answer<A: AuthManager>(policy: A, call: ToolCallView, answer: bool) -> bool {
    exists|name: &str, args: &Value|
        name@ == call.name && args@ == call.args && #[trigger] call_ensures(
            A::requires_authorization,
            (&policy, name, args),
            answer,
        )
}

/// What may stand in the way of a call: an unknown tool for one that is not
/// registered; otherwise nothing, or, where there is a policy that asks for it, the
/// approval.
pub open spec fn gate_fits<T: Tool, A: AuthManager>(
    tools: Map<Seq<char>, T>,
    policy: Option<A>,
    call: ToolCallView,
    gate: Gate,
) -> bool {
    if !tools.dom().contains(call.name) {
        gate == Gate::Unknown
    } else {
        match policy {
            Some(policy) => match gate {
                Gate::Unknown => false,
                Gate::Open => may_answer(policy, call, false),
                Gate::Guarded => may_answer(policy, call, true),
            },
            None => gate == Gate::Open,
        }
    }
}

/// The policy behind a handle, if there is one.
pub open spec fn pointed_to<A>(handle: Option<Arc<A>>) -> Option<A> {
    match handle {
        Some(policy) => Some(*policy),
        None => None,
    }
}

/// What may stand in the way of each of a list of calls.
pub open spec fn gates_fit<T: Tool, A: AuthManager>(
    tools: Map<Seq<char>, T>,
    policy: Option<A>,
    calls: Seq<ToolCallView>,
    gates: Seq<Gate>,
) -> bool {
    &&& gates.len() == calls.len()
    &&& forall|i: int|
        0 <= i < calls.len() ==> gate_fits(tools, policy, calls[i], #[trigger] gates[i])
}

/// The calls that the model has streamed so far.
pub open spec fn streamed_calls(run: LoopView) -> Seq<ToolCallView> {
    match run.phase {
        LoopPhaseView::Streaming { calls } => calls,
        _ => Seq::empty(),
    }
}

/// What stands in the way of a call, given whether its tool is registered and
/// whether the policy, if there is one, asks for approval.
pub fn gate_of(registered: bool, requires_authorization: Option<bool>) -> (res: Gate)
    ensures
        res == (if !registered {
            Gate::Unknown
        } else if requires_authorization == Some(true) {
            Gate::Guarded
        } else {
            Gate::Open
        }),
{
    if !registered {
        return Gate::Unknown;
    }
    match requires_authorization {
        Some(true) => Gate::Guarded,
        _ => Gate::Open,
    }
}

/// What stands in the way of one call. The policy is asked only about tools that are
/// registered.
fn gate_for<T: Tool, A: AuthManager>(
    call: &ToolCall,
    registry: &ToolRegistry<T>,
    auth_manager: &Option<Arc<A>>,
) -> (res: Gate)
    ensures
        gate_fits(registry@, pointed_to(*auth_manager), call@, res),
{
    let registered = registry.contains(call.name.as_str());
    let requires_authorization = match auth_manager {
        Some(auth) => if registered {
            let name = call.name.as_str();
            let answer = auth.requires_authorization(name, &call.args);
            assert(call_ensures(A::requires_authorization, (&**auth, name, &call.args), answer));
            Some(answer)
        } else {
            None
        },
        None => None,
    };
    gate_of(registered, requires_authorization)
}

/// Nothing to report.
fn no_events() -> (res: Vec<LoopEvent>)
    ensures
        seq_view(res@) == Seq::<LoopEventView>::empty(),
{
    let res: Vec<LoopEvent> = Vec::new();
    assert(seq_view(res@) =~= Seq::empty());
    res
}

/// One thing to report.
fn one_event(event: LoopEvent) -> (res: Vec<LoopEvent>)
    ensures
        seq_view(res@) == seq![event@],
{
    let mut res: Vec<LoopEvent> = Vec::new();
    res.push(event);
    assert(seq_view(res@) =~= seq![event@]);
    res
}

/// A call is about to run.
fn start_event(index: usize, call: &ToolCall) -> (res: LoopEvent)
    ensures
        res@ == started(index as int, call@),
{
    LoopEvent::Started { index, name: call.name.clone(), args: call.args.clone() }
}

/// The calls to begin with, where they stand, and what there is to report.
fn begin_calls<W: Wording>(calls: Vec<Arc<ToolCall>>, gates: Vec<Gate>) -> (res: (
    ToolBatch,
    Vec<Stage>,
    Vec<LoopEvent>,
))
    ensures
        res.0@ == first_batch::<W>(seq_view(calls@), gates@),
        res.1@ == first_stages(seq_view(calls@), gates@),
        seq_view(res.2@) == first_events(seq_view(calls@), gates@, calls@.len() as int),
{
    let ghost models = seq_view(calls@);
    let count: usize = calls.len();
    let mut batch = ToolBatch::new(calls);
    let mut stages: Vec<Stage> = Vec::new();
    let mut events = no_events();
    let mut i: usize = 0;
    while i < count
        invariant
            count == models.len(),
            i <= count,
            batch@.calls == models,
            batch_wf(batch@),
            forall|j: int|
                0 <= j < count ==> #[trigger] batch@.results[j] == (if j < i && gate_at(gates@, j)
                    == Gate::Unknown {
                    Some(W::unknown_value(models[j].name))
                } else {
                    None
                }),
            stages@.len() == i,
            forall|j: int|
                0 <= j < i ==> #[trigger] stages@[j] == first_stage(gate_at(gates@, j)),
            seq_view(events@) == first_events(models, gates@, i as int),
        decreases count - i,
    {
        let gate = if i < gates.len() {
            gates[i]
        } else {
            Gate::Unknown
        };
        let call = share(batch.call(i));
        match gate {
            Gate::Unknown => {
                stages.push(Stage::Over);
                batch.settle(i, W::unknown(call.name.as_str()));
            },
            Gate::Open => {
                stages.push(Stage::Running);
                let ghost before = events@;
                events.push(start_event(i, &call));
                proof {
                    lemma_seq_view_push(before, events@.last());
                }
            },
            Gate::Guarded => {
                stages.push(Stage::Guarded);
            },
        }
        i = i + 1;
    }
    assert(batch@.results =~= first_batch::<W>(models, gates@).results);
    assert(stages@ =~= first_stages(models, gates@));
    (batch, stages, events)
}

impl<W: Wording> LoopRun<W> {
    /// Starts a run of `agent` from `thread`, with `tools`. The model is to be asked.
    pub fn start(agent: &Agent, tools: Vec<ToolDefinition>, thread: MessageList) -> (res: Self)
        ensures
            res@ == (LoopView {
                system: agent@.instructions,
                output_schema: agent@.output_schema,
                tools: seq_view(tools@),
                thread: thread@,
                phase: LoopPhaseView::Streaming { calls: Seq::empty() },
            }),
    {
        let output_schema = match agent.output_schema() {
            Some(schema) => Some(schema.clone()),
            None => None,
        };
        let res = LoopRun {
            system: agent.instructions().to_owned(),
            output_schema,
            tools,
            thread,
            phase: LoopPhase::Streaming { calls: Vec::new() },
            wording: PhantomData,
        };
        assert(res@.phase->Streaming_calls =~= Seq::empty());
        res
    }

    /// Whether the run is over.
    pub fn is_finished(&self) -> (res: bool)
        ensures
            res == (self@.phase is Finished),
    {
        match self.phase {
            LoopPhase::Finished => true,
            _ => false,
        }
    }

    /// Whether the model is to be asked, or is streaming.
    pub fn is_streaming(&self) -> (res: bool)
        ensures
            res == (self@.phase is Streaming),
    {
        match self.phase {
            LoopPhase::Streaming { .. } => true,
            _ => false,
        }
    }

    /// The request to send to the model.
    pub fn request(&self) -> (res: ModelRequest)
        ensures
            res@ == loop_request(self@),
    {
        ModelRequest {
            messages: self.thread.clone(),
            system: Some(self.system.clone()),
            output_schema: clone_option(&self.output_schema),
            tools: clone_all(&self.tools),
        }
    }

    /// Call `index` of those that are carried out, and where it stands.
    pub fn call(&self, index: usize) -> (res: Option<(Arc<ToolCall>, Stage)>)
        ensures
            match (res, self@.phase) {
                (Some(found), LoopPhaseView::Tools { batch, stages }) => {
                    &&& index < batch.calls.len()
                    &&& index < stages.len()
                    &&& found.0@ == batch.calls[index as int]
                    &&& found.1 == stages[index as int]
                },
                (None, LoopPhaseView::Tools { batch, stages }) => index >= batch.calls.len() || index
                    >= stages.len(),
                (found, _) => found is None,
            },
    {
        match &self.phase {
            LoopPhase::Tools { batch, stages } => if index < batch.len() && index < stages.len() {
                Some((share(batch.call(index)), stages[index]))
            } else {
                None
            },
            _ => None,
        }
    }

    /// What stands in the way of each of the calls that the model has streamed.
    pub fn gates<T: Tool, A: AuthManager>(
        &self,
        registry: &ToolRegistry<T>,
        auth_manager: &Option<Arc<A>>,
    ) -> (res: Vec<Gate>)
        ensures
            gates_fit(registry@, pointed_to(*auth_manager), streamed_calls(self@), res@),
    {
        let mut gates: Vec<Gate> = Vec::new();
        if let LoopPhase::Streaming { calls } = &self.phase {
            let mut i: usize = 0;
            while i < calls.len()
                invariant
                    i <= calls@.len(),
                    gates@.len() == i,
                    forall|j: int|
                        0 <= j < i ==> gate_fits(
                            registry@,
                            pointed_to(*auth_manager),
                            calls@[j]@,
                            #[trigger] gates@[j],
                        ),
                decreases calls@.len() - i,
            {
                gates.push(gate_for(&calls[i], registry, auth_manager));
                i = i + 1;
            }
        }
        gates
    }

    /// Takes in one input and says what there is to report.
    pub fn step(&mut self, input: LoopInput) -> (res: Vec<LoopEvent>)
        ensures
            final(self)@ == loop_step::<W>(old(self)@, input@).0,
            seq_view(res@) == loop_step::<W>(old(self)@, input@).1,
    {
        let mut phase = LoopPhase::Finished;
        std::mem::swap(&mut phase, &mut self.phase);
        match (phase, input) {
            (LoopPhase::Streaming { calls }, LoopInput::Chunk(chunk)) => self.take_chunk(calls, chunk),
            (LoopPhase::Streaming { .. }, LoopInput::ModelFailed(error)) => one_event(
                LoopEvent::ModelFailed(error),
            ),
            (LoopPhase::Streaming { calls }, LoopInput::StreamEnded { gates }) => self.end_turn(
                calls,
                gates,
            ),
            (LoopPhase::Tools { batch, stages }, LoopInput::Verdict { index, denied }) => {
                if index < stages.len() && stages[index] == Stage::Guarded && index < batch.len() {
                    self.take_verdict(batch, stages, index, denied)
                } else {
                    self.phase = LoopPhase::Tools { batch, stages };
                    no_events()
                }
            },
            (LoopPhase::Tools { batch, stages }, LoopInput::ToolEnded { index, outcome }) => {
                if index < stages.len() && stages[index] == Stage::Running && index < batch.len() {
                    self.take_outcome(batch, stages, index, outcome)
                } else {
                    self.phase = LoopPhase::Tools { batch, stages };
                    no_events()
                }
            },
            (same, _) => {
                self.phase = same;
                no_events()
            },
        }
    }

    /// Takes in a chunk while the model is streaming.
    fn take_chunk(&mut self, calls: Vec<Arc<ToolCall>>, chunk: ModelStreamChunk) -> (res: Vec<
        LoopEvent,
    >)
        ensures
            ({
                let before = LoopView {
                    phase: LoopPhaseView::Streaming { calls: seq_view(calls@) },
                    ..old(self)@
                };
                let expected = loop_step::<W>(before, LoopInputView::Chunk(chunk@));
                final(self)@ == expected.0 && seq_view(res@) == expected.1
            }),
    {
        let mut calls = calls;
        let ghost before = calls@;
        match chunk {
            ModelStreamChunk::Thinking(text) => {
                self.phase = LoopPhase::Streaming { calls };
                one_event(LoopEvent::Thinking(text))
            },
            ModelStreamChunk::TextDelta(text) => {
                self.phase = LoopPhase::Streaming { calls };
                one_event(LoopEvent::Text(text))
            },
            ModelStreamChunk::ToolCall(call) => {
                calls.push(Arc::new(call));
                proof {
                    lemma_seq_view_push(before, calls@.last());
                }
                self.phase = LoopPhase::Streaming { calls };
                no_events()
            },
            ModelStreamChunk::Usage(_) => {
                self.phase = LoopPhase::Streaming { calls };
                no_events()
            },
        }
    }

    /// Goes on with the calls where they are: asks the model once all of them have
    /// their answers.
    fn go_on(&mut self, batch: ToolBatch, stages: Vec<Stage>)
        ensures
            final(self)@ == with_calls(old(self)@, batch@, stages@),
    {
        if batch.is_settled() {
            batch.append_to(&mut self.thread);
            self.phase = LoopPhase::Streaming { calls: Vec::new() };
            assert(self@.phase->Streaming_calls =~= Seq::empty());
        } else {
            self.phase = LoopPhase::Tools { batch, stages };
        }
    }

    /// Ends the model's turn.
    fn end_turn(&mut self, calls: Vec<Arc<ToolCall>>, gates: Vec<Gate>) -> (res: Vec<LoopEvent>)
        requires
            old(self)@.phase is Finished,
        ensures
            final(self)@ == loop_end_step::<W>(old(self)@, seq_view(calls@), gates@).0,
            seq_view(res@) == loop_end_step::<W>(old(self)@, seq_view(calls@), gates@).1,
    {
        assert(seq_view(calls@).len() == calls@.len());
        if calls.len() == 0 {
            no_events()
        } else {
            self.thread.push(Message::tool_calls(share_all(&calls)));
            let (batch, stages, events) = begin_calls::<W>(calls, gates);
            self.go_on(batch, stages);
            events
        }
    }

    /// Takes in the verdict on a call.
    fn take_verdict(
        &mut self,
        batch: ToolBatch,
        stages: Vec<Stage>,
        index: usize,
        denied: Option<String>,
    ) -> (res: Vec<LoopEvent>)
        requires
            stands_at(batch@, stages@, index as int, Stage::Guarded),
        ensures
            ({
                let expected = verdict_step::<W>(
                    old(self)@,
                    batch@,
                    stages@,
                    index as int,
                    option_view(denied),
                );
                final(self)@ == expected.0 && seq_view(res@) == expected.1
            }),
    {
        let mut batch = batch;
        let mut stages = stages;
        match denied {
            None => {
                let events = one_event(start_event(index, batch.call(index)));
                stages.set(index, Stage::Running);
                self.phase = LoopPhase::Tools { batch, stages };
                events
            },
            Some(reason) => {
                let value = W::denied(reason.as_str());
                let name = batch.call(index).name.clone();
                let events = one_event(LoopEvent::Denied { index, name, reason });
                stages.set(index, Stage::Over);
                batch.settle(index, value);
                self.go_on(batch, stages);
                events
            },
        }
    }

    /// Takes in how a call that ran has ended.
    fn take_outcome(
        &mut self,
        batch: ToolBatch,
        stages: Vec<Stage>,
        index: usize,
        outcome: Result<Value, Error>,
    ) -> (res: Vec<LoopEvent>)
        requires
            stands_at(batch@, stages@, index as int, Stage::Running),
        ensures
            ({
                let expected = tool_step::<W>(
                    old(self)@,
                    batch@,
                    stages@,
                    index as int,
                    result_view(outcome),
                );
                final(self)@ == expected.0 && seq_view(res@) == expected.1
            }),
    {
        let mut batch = batch;
        let mut stages = stages;
        let name = batch.call(index).name.clone();
        let (value, events) = match outcome {
            Ok(result) => (
                result.clone(),
                one_event(LoopEvent::Done { index, name, result }),
            ),
            Err(error) => (
                W::failed(&error),
                one_event(LoopEvent::Failed { index, name, error }),
            ),
        };
        stages.set(index, Stage::Over);
        batch.settle(index, value);
        self.go_on(batch, stages);
        events
    }
}

} // verus!
