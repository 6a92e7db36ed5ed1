//! A runner that carries out tool calls itself and reports each with its outcome.
use crate::agent::Agent;
use crate::auth::AuthManager;
use crate::error::{Error, ErrorView};
use crate::json::{Value, ValueView};
use crate::model::MessageList;
use crate::runner::{call_result_value, ToolCallResult, ToolCallResultView};
use crate::tool_loop::{
    all_reported, gates_fit, loop_step, pointed_to, report_all, streamed_calls, Gate, LoopEvent,
    LoopEventView, LoopInput, LoopInputView, LoopPhaseView, LoopRun, LoopView, Report, Wording,
};
use crate::tools::{lists_all, Tool, ToolRegistry};
use crate::views::seq_view;
use std::sync::Arc;
use vstd::prelude::*;

verus! {

/// What a run reports.
#[derive(Debug)]
pub enum AgentEvent {
    /// A registered tool is about to run with these arguments.
    ToolCallStarted { name: String, args: Value },
    /// A tool call resolved: the tool returned or failed, or the call was denied.
    ToolCallFinished { name: String, result: ToolCallResult },
    /// A chunk of the model's thinking.
    ThinkingDelta(String),
    /// A chunk of the model's text.
    TextDelta(String),
    /// The provider returned an error. Nothing comes after it.
    Error(Error),
}

/// The model of an [`AgentEvent`].
#[verifier::ext_equal]
pub ghost enum AgentEventView {
    ToolCallStarted { name: Seq<char>, args: ValueView },
    ToolCallFinished { name: Seq<char>, result: ToolCallResultView },
    ThinkingDelta(Seq<char>),
    TextDelta(Seq<char>),
    Error(ErrorView),
}

impl View for AgentEvent {
    type V = AgentEventView;

    open spec fn view(&self) -> AgentEventView {
        match self {
            AgentEvent::ToolCallStarted { name, args } => AgentEventView::ToolCallStarted {
                name: name@,
                args: args@,
            },
            AgentEvent::ToolCallFinished { name, result } => AgentEventView::ToolCallFinished {
                name: name@,
                result: result@,
            },
            AgentEvent::ThinkingDelta(text) => AgentEventView::ThinkingDelta(text@),
            AgentEvent::TextDelta(text) => AgentEventView::TextDelta(text@),
            AgentEvent::Error(error) => AgentEventView::Error(error@),
        }
    }
}

/// An event with its place among nested runs.
#[derive(Debug)]
pub struct RunnerEvent {
    /// Identifier of the thread that produced this event.
    pub thread_id: usize,
    /// Nesting depth below the root run (root is 0).
    pub depth: usize,
    /// The wrapped event.
    pub agent_event: AgentEvent,
}

impl Report for AgentEvent {
    open spec fn reported(event: LoopEventView) -> AgentEventView {
        match event {
            LoopEventView::Started { name, args, .. } => AgentEventView::ToolCallStarted { name, args },
            LoopEventView::Denied { name, .. } => AgentEventView::ToolCallFinished {
                name,
                result: ToolCallResultView::Denied,
            },
            LoopEventView::Done { name, result, .. } => AgentEventView::ToolCallFinished {
                name,
                result: ToolCallResultView::Done(result),
            },
            LoopEventView::Failed { name, error, .. } => AgentEventView::ToolCallFinished {
                name,
                result: ToolCallResultView::Failed(error),
            },
            LoopEventView::Thinking(text) => AgentEventView::ThinkingDelta(text),
            LoopEventView::Text(text) => AgentEventView::TextDelta(text),
            LoopEventView::ModelFailed(error) => AgentEventView::Error(error),
        }
    }

    fn report(event: LoopEvent) -> (res: AgentEvent) {
        match event {
            LoopEvent::Started { index: _, name, args } => AgentEvent::ToolCallStarted { name, args },
            LoopEvent::Denied { index: _, name, reason: _ } => AgentEvent::ToolCallFinished {
                name,
                result: ToolCallResult::Denied,
            },
            LoopEvent::Done { index: _, name, result } => AgentEvent::ToolCallFinished {
                name,
                result: ToolCallResult::Done(result),
            },
            LoopEvent::Failed { index: _, name, error } => AgentEvent::ToolCallFinished {
                name,
                result: ToolCallResult::Failed(error),
            },
            LoopEvent::Thinking(text) => AgentEvent::ThinkingDelta(text),
            LoopEvent::Text(text) => AgentEvent::TextDelta(text),
            LoopEvent::ModelFailed(error) => AgentEvent::Error(error),
        }
    }
}

/// What the model gets to read: that of the [`ToolCallResult`].
pub struct RegistryWording;

impl Wording for RegistryWording {
    open spec fn unknown_value(name: Seq<char>) -> ValueView {
        call_result_value(ToolCallResultView::Unknown)
    }

    open spec fn denied_value(reason: Seq<char>) -> ValueView {
        call_result_value(ToolCallResultView::Denied)
    }

    open spec fn failed_value(error: ErrorView) -> ValueView {
        call_result_value(ToolCallResultView::Failed(error))
    }

    fn unknown(name: &str) -> (res: Value) {
        Value::from(ToolCallResult::Unknown)
    }

    fn denied(reason: &str) -> (res: Value) {
        Value::from(ToolCallResult::Denied)
    }

    fn failed(error: &Error) -> (res: Value) {
        Value::from(ToolCallResult::Failed(error.clone()))
    }
}

/// Runs agents, carrying out their tool calls from a registry.
pub struct AgentRunner<T: Tool, A: AuthManager> {
    registry: Arc<ToolRegistry<T>>,
    auth_manager: Option<Arc<A>>,
}

impl<T: Tool, A: AuthManager> AgentRunner<T, A> {
    /// The tools by name.
    pub closed spec fn tools(&self) -> Map<Seq<char>, T> {
        self.registry@
    }

    /// The policy that stands in front of the tools, if there is one.
    pub closed spec fn policy(&self) -> Option<A> {
        pointed_to(self.auth_manager)
    }

    /// Creates a runner without tools.
    pub fn new() -> (res: Self)
        ensures
            res.tools() == Map::<Seq<char>, T>::empty(),
            res.policy() is None,
    {
        AgentRunner { registry: Arc::new(ToolRegistry::new()), auth_manager: None }
    }

    /// Creates a runner with the supplied tools.
    pub fn with_registry(registry: Arc<ToolRegistry<T>>) -> (res: Self)
        ensures
            res.tools() == registry@,
            res.policy() is None,
    {
        AgentRunner { registry, auth_manager: None }
    }

    /// Sets the policy that is consulted before every tool call. With none set, all
    /// calls run.
    pub fn with_auth_manager(self, auth_manager: Arc<A>) -> (res: Self)
        ensures
            res.tools() == self.tools(),
            res.policy() == Some(*auth_manager),
    {
        AgentRunner { registry: self.registry, auth_manager: Some(auth_manager) }
    }

    /// Starts a run of `agent` from `thread`, with all the registered tools.
    pub fn run(&self, agent: &Agent, thread: MessageList) -> (res: LoopRun<RegistryWording>)
        ensures
            lists_all(self.tools(), res@.tools),
            res@ == (LoopView {
                system: agent@.instructions,
                output_schema: agent@.output_schema,
                tools: res@.tools,
                thread: thread@,
                phase: LoopPhaseView::Streaming { calls: Seq::empty() },
            }),
    {
        LoopRun::start(agent, self.registry.definitions(), thread)
    }

    /// Tells a run that the model has streamed everything: the tool calls begin.
    pub fn end_stream(&self, run: &mut LoopRun<RegistryWording>) -> (res: Vec<AgentEvent>)
        ensures
            exists|gates: Seq<Gate>|
                {
                    &&& #[trigger] gates_fit(
                        self.tools(),
                        self.policy(),
                        streamed_calls(old(run)@),
                        gates,
                    )
                    &&& final(run)@ == loop_step::<RegistryWording>(
                        old(run)@,
                        LoopInputView::StreamEnded { gates },
                    ).0
                    &&& seq_view(res@) == all_reported::<AgentEvent>(
                        loop_step::<RegistryWording>(
                            old(run)@,
                            LoopInputView::StreamEnded { gates },
                        ).1,
                    )
                },
    {
        let gates = run.gates(&*self.registry, &self.auth_manager);
        assert(gates_fit(self.tools(), self.policy(), streamed_calls(run@), gates@));
        tell(run, LoopInput::StreamEnded { gates })
    }
}

/// Tells a run what happened, and says what there is to report.
pub fn tell(run: &mut LoopRun<RegistryWording>, input: LoopInput) -> (res: Vec<AgentEvent>)
    ensures
        final(run)@ == loop_step::<RegistryWording>(old(run)@, input@).0,
        seq_view(res@) == all_reported::<AgentEvent>(loop_step::<RegistryWording>(old(run)@, input@).1),
{
    report_all(run.step(input))
}

/// The verdict on call `index`, as a run is told it. A denial gives no reason.
pub fn verdict(index: usize, allowed: bool) -> (res: LoopInput)
    ensures
        res@ == (LoopInputView::Verdict {
            index: index as int,
            denied: if allowed {
                None
            } else {
                Some(Seq::empty())
            },
        }),
{
    let denied = if allowed {
        None
    } else {
        Some(String::new())
    };
    LoopInput::Verdict { index, denied }
}

/// A text, and what one more event adds to it.
pub open spec fn with_event(text: Seq<char>, event: AgentEventView) -> Seq<char> {
    match event {
        AgentEventView::TextDelta(more) => text + more,
        _ => text,
    }
}

/// The reply of a child agent that runs as a tool, put together from what its run
/// reports.
#[derive(Debug)]
pub struct ChildReply {
    text: String,
}

impl View for ChildReply {
    type V = Seq<char>;

    closed spec fn view(&self) -> Seq<char> {
        self.text@
    }
}

impl ChildReply {
    /// Nothing has been reported yet.
    pub fn new() -> (res: Self)
        ensures
            res@ == Seq::<char>::empty(),
    {
        ChildReply { text: String::new() }
    }

    /// Takes in the next event: the text in it joins the reply.
    pub fn observe(&mut self, event: &AgentEvent)
        ensures
            final(self)@ == with_event(old(self)@, event@),
    {
        if let AgentEvent::TextDelta(text) = event {
            self.text.append(text.as_str());
        }
    }

    /// The outcome of the tool call: the reply, as a text.
    pub fn finish(self) -> (res: ToolCallResult)
        ensures
            res@ == ToolCallResultView::Done(ValueView::String(self@)),
    {
        ToolCallResult::Done(Value::String(self.text))
    }
}

/// What a loop does is reported as it is: a call that starts by its name and arguments, a
/// result by the result itself, a failure by its error, a denial as one, thinking and
/// text by their pieces, and a failure of the model by its error.
pub proof fn law_reports(
    index: int,
    name: Seq<char>,
    value: ValueView,
    error: ErrorView,
    text: Seq<char>,
)
    ensures
        AgentEvent::reported(LoopEventView::Started { index, name, args: value }) == (
        AgentEventView::ToolCallStarted { name, args: value }),
        AgentEvent::reported(LoopEventView::Done { index, name, result: value }) == (
        AgentEventView::ToolCallFinished { name, result: ToolCallResultView::Done(value) }),
        AgentEvent::reported(LoopEventView::Failed { index, name, error }) == (
        AgentEventView::ToolCallFinished { name, result: ToolCallResultView::Failed(error) }),
        AgentEvent::reported(LoopEventView::Denied { index, name, reason: text }) == (
        AgentEventView::ToolCallFinished { name, result: ToolCallResultView::Denied }),
        AgentEvent::reported(LoopEventView::Thinking(text)) == AgentEventView::ThinkingDelta(text),
        AgentEvent::reported(LoopEventView::Text(text)) == AgentEventView::TextDelta(text),
        AgentEvent::reported(LoopEventView::ModelFailed(error)) == AgentEventView::Error(error),
{
}

/// What the model gets to read of a call that went wrong.
pub proof fn law_wording(text: Seq<char>)
    ensures
        RegistryWording::unknown_value(text) == ValueView::String("Unknown tool"@),
        RegistryWording::denied_value(text) == ValueView::String("Tool call denied"@),
        RegistryWording::failed_value(ErrorView::Agent(text)) == ValueView::String(
            "Tool call error: "@ + ("Agent error: "@ + text),
        ),
        RegistryWording::failed_value(ErrorView::Provider(text)) == ValueView::String(
            "Tool call error: "@ + ("LLM provider error: "@ + text),
        ),
{
}

/// The texts that events report, one after the other.
pub open spec fn reported_text(events: Seq<AgentEventView>) -> Seq<char> {
    events.filter(|event: AgentEventView| event is TextDelta).map_values(
        |event: AgentEventView| event->TextDelta_0,
    ).flatten()
}

/// The reply of a child is all the text that its run reports, in order, and nothing else.
pub proof fn law_child_reply(events: Seq<AgentEventView>)
    ensures
        events.fold_left(
            Seq::<char>::empty(),
            |text: Seq<char>, event: AgentEventView| with_event(text, event),
        ) == reported_text(events),
    decreases events.len(),
{
    reveal(Seq::filter);
    let texts = events.filter(|event: AgentEventView| event is TextDelta).map_values(
        |event: AgentEventView| event->TextDelta_0,
    );
    texts.lemma_flatten_and_flatten_alt_are_equivalent();
    if events.len() == 0 {
        assert(texts =~= Seq::empty());
    } else {
        law_child_reply(events.drop_last());
        let fewer = events.drop_last().filter(
            |event: AgentEventView| event is TextDelta,
        ).map_values(|event: AgentEventView| event->TextDelta_0);
        fewer.lemma_flatten_and_flatten_alt_are_equivalent();
        if events.last() is TextDelta {
            assert(texts.drop_last() =~= fewer);
        } else {
            assert(texts =~= fewer);
        }
    }
}

} // verus!
