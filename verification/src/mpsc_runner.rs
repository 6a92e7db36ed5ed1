//! A runner that carries out tool calls itself and says why calls were denied.
use crate::agent::Agent;
use crate::auth::AuthManager;
use crate::error::{error_text, Error, ErrorView};
use crate::json::{Value, ValueView};
use crate::model::MessageList;
use crate::text::prefixed;
use crate::tool_loop::{
    all_reported, gates_fit, loop_step, pointed_to, report_all, streamed_calls, Gate, LoopEvent,
    LoopEventView, LoopInput, LoopInputView, LoopPhaseView, LoopRun, LoopView, Report, Wording,
};
use crate::tools::{lists_all, Tool, ToolRegistry};
use crate::views::seq_view;
use std::sync::Arc;
use vstd::prelude::*;

verus! {

/// What a run reports.
#[derive(Debug)]
pub enum AgentEvent {
    /// A registered tool is about to run with these arguments.
    ToolCallStarted { name: String, args: Value },
    /// A tool returned.
    ToolCallFinished { name: String, result: Value },
    /// A tool failed.
    ToolCallError { name: String, error: Error },
    /// A call was denied; the tool does not run.
    ToolCallDenied { name: String, reason: String },
    /// A chunk of the model's thinking.
    ThinkingDelta(String),
    /// A chunk of the model's text.
    TextDelta(String),
    /// The provider returned an error. Nothing comes after it.
    Error(Error),
}

/// The model of an [`AgentEvent`].
#[verifier::ext_equal]
pub ghost enum AgentEventView {
    ToolCallStarted { name: Seq<char>, args: ValueView },
    ToolCallFinished { name: Seq<char>, result: ValueView },
    ToolCallError { name: Seq<char>, error: ErrorView },
    ToolCallDenied { name: Seq<char>, reason: Seq<char> },
    ThinkingDelta(Seq<char>),
    TextDelta(Seq<char>),
    Error(ErrorView),
}

impl View for AgentEvent {
    type V = AgentEventView;

    open spec fn view(&self) -> AgentEventView {
        match self {
            AgentEvent::ToolCallStarted { name, args } => AgentEventView::ToolCallStarted {
                name: name@,
                args: args@,
            },
            AgentEvent::ToolCallFinished { name, result } => AgentEventView::ToolCallFinished {
                name: name@,
                result: result@,
            },
            AgentEvent::ToolCallError { name, error } => AgentEventView::ToolCallError {
                name: name@,
                error: error@,
            },
            AgentEvent::ToolCallDenied { name, reason } => AgentEventView::ToolCallDenied {
                name: name@,
                reason: reason@,
            },
            AgentEvent::ThinkingDelta(text) => AgentEventView::ThinkingDelta(text@),
            AgentEvent::TextDelta(text) => AgentEventView::TextDelta(text@),
            AgentEvent::Error(error) => AgentEventView::Error(error@),
        }
    }
}

/// An event with its place among nested runs.
#[derive(Debug)]
pub struct RunnerEvent {
    /// Identifier of the thread that produced this event.
    pub thread_id: usize,
    /// Nesting depth below the root run (root is 0).
    pub depth: usize,
    /// The wrapped event.
    pub agent_event: AgentEvent,
}

impl Report for AgentEvent {
    open spec fn reported(event: LoopEventView) -> AgentEventView {
        match event {
            LoopEventView::Started { name, args, .. } => AgentEventView::ToolCallStarted { name, args },
            LoopEventView::Denied { name, reason, .. } => AgentEventView::ToolCallDenied {
                name,
                reason,
            },
            LoopEventView::Done { name, result, .. } => AgentEventView::ToolCallFinished {
                name,
                result,
            },
            LoopEventView::Failed { name, error, .. } => AgentEventView::ToolCallError { name, error },
            LoopEventView::Thinking(text) => AgentEventView::ThinkingDelta(text),
            LoopEventView::Text(text) => AgentEventView::TextDelta(text),
            LoopEventView::ModelFailed(error) => AgentEventView::Error(error),
        }
    }

    fn report(event: LoopEvent) -> (res: AgentEvent) {
        match event {
            LoopEvent::Started { index: _, name, args } => AgentEvent::ToolCallStarted { name, args },
            LoopEvent::Denied { index: _, name, reason } => AgentEvent::ToolCallDenied { name, reason },
            LoopEvent::Done { index: _, name, result } => AgentEvent::ToolCallFinished { name, result },
            LoopEvent::Failed { index: _, name, error } => AgentEvent::ToolCallError { name, error },
            LoopEvent::Thinking(text) => AgentEvent::ThinkingDelta(text),
            LoopEvent::Text(text) => AgentEvent::TextDelta(text),
            LoopEvent::ModelFailed(error) => AgentEvent::Error(error),
        }
    }
}

/// What the model gets to read: the unknown tool by its name, the reason of the
/// denial, the error.
pub struct MpscWording;

impl Wording for MpscWording {
    open spec fn unknown_value(name: Seq<char>) -> ValueView {
        ValueView::String("unknown tool: "@ + name)
    }

    open spec fn denied_value(reason: Seq<char>) -> ValueView {
        ValueView::String("authorization denied: "@ + reason)
    }

    open spec fn failed_value(error: ErrorView) -> ValueView {
        ValueView::String("Error: "@ + error_text(error))
    }

    fn unknown(name: &str) -> (res: Value) {
        Value::String(prefixed("unknown tool: ", name))
    }

    fn denied(reason: &str) -> (res: Value) {
        Value::String(prefixed("authorization denied: ", reason))
    }

    fn failed(error: &Error) -> (res: Value) {
        Value::String(prefixed("Error: ", error.to_string().as_str()))
    }
}

/// Runs agents, carrying out their tool calls from a registry.
pub struct MpscRunner<T: Tool, A: AuthManager> {
    registry: Arc<ToolRegistry<T>>,
    auth_manager: Option<Arc<A>>,
}

impl<T: Tool, A: AuthManager> MpscRunner<T, A> {
    /// The tools by name.
    pub closed spec fn tools(&self) -> Map<Seq<char>, T> {
        self.registry@
    }

    /// The policy that stands in front of the tools, if there is one.
    pub closed spec fn policy(&self) -> Option<A> {
        pointed_to(self.auth_manager)
    }

    /// Creates a runner without tools.
    pub fn new() -> (res: Self)
        ensures
            res.tools() == Map::<Seq<char>, T>::empty(),
            res.policy() is None,
    {
        MpscRunner { registry: Arc::new(ToolRegistry::new()), auth_manager: None }
    }

    /// Creates a runner with the supplied tools.
    pub fn with_registry(registry: Arc<ToolRegistry<T>>) -> (res: Self)
        ensures
            res.tools() == registry@,
            res.policy() is None,
    {
        MpscRunner { registry, auth_manager: None }
    }

    /// Sets the policy that is consulted before every tool call. With none set, all
    /// calls run.
    pub fn with_auth_manager(self, auth_manager: Arc<A>) -> (res: Self)
        ensures
            res.tools() == self.tools(),
            res.policy() == Some(*auth_manager),
    {
        MpscRunner { registry: self.registry, auth_manager: Some(auth_manager) }
    }

    /// Starts a run of `agent` from `thread`, with all the registered tools.
    pub fn run(&self, agent: &Agent, thread: MessageList) -> (res: LoopRun<MpscWording>)
        ensures
            lists_all(self.tools(), res@.tools),
            res@ == (LoopView {
                system: agent@.instructions,
                output_schema: agent@.output_schema,
                tools: res@.tools,
                thread: thread@,
                phase: LoopPhaseView::Streaming { calls: Seq::empty() },
            }),
    {
        LoopRun::start(agent, self.registry.definitions(), thread)
    }

    /// Tells a run that the model has streamed everything: the tool calls begin.
    pub fn end_stream(&self, run: &mut LoopRun<MpscWording>) -> (res: Vec<AgentEvent>)
        ensures
            exists|gates: Seq<Gate>|
                {
                    &&& #[trigger] gates_fit(
                        self.tools(),
                        self.policy(),
                        streamed_calls(old(run)@),
                        gates,
                    )
                    &&& final(run)@ == loop_step::<MpscWording>(
                        old(run)@,
                        LoopInputView::StreamEnded { gates },
                    ).0
                    &&& seq_view(res@) == all_reported::<AgentEvent>(
                        loop_step::<MpscWording>(
                            old(run)@,
                            LoopInputView::StreamEnded { gates },
                        ).1,
                    )
                },
    {
        let gates = run.gates(&*self.registry, &self.auth_manager);
        assert(gates_fit(self.tools(), self.policy(), streamed_calls(run@), gates@));
        tell(run, LoopInput::StreamEnded { gates })
    }
}

/// Tells a run what happened, and says what there is to report.
pub fn tell(run: &mut LoopRun<MpscWording>, input: LoopInput) -> (res: Vec<AgentEvent>)
    ensures
        final(run)@ == loop_step::<MpscWording>(old(run)@, input@).0,
        seq_view(res@) == all_reported::<AgentEvent>(loop_step::<MpscWording>(old(run)@, input@).1),
{
    report_all(run.step(input))
}

/// What a loop does is reported as it is: a call that starts by its name and arguments, a
/// result by the result itself, a failure by its error, a denial by its reason, thinking
/// and text by their pieces, and a failure of the model by its error.
pub proof fn law_reports(
    index: int,
    name: Seq<char>,
    value: ValueView,
    error: ErrorView,
    text: Seq<char>,
)
    ensures
        AgentEvent::reported(LoopEventView::Started { index, name, args: value }) == (
        AgentEventView::ToolCallStarted { name, args: value }),
        AgentEvent::reported(LoopEventView::Done { index, name, result: value }) == (
        AgentEventView::ToolCallFinished { name, result: value }),
        AgentEvent::reported(LoopEventView::Failed { index, name, error }) == (
        AgentEventView::ToolCallError { name, error }),
        AgentEvent::reported(LoopEventView::Denied { index, name, reason: text }) == (
        AgentEventView::ToolCallDenied { name, reason: text }),
        AgentEvent::reported(LoopEventView::Thinking(text)) == AgentEventView::ThinkingDelta(text),
        AgentEvent::reported(LoopEventView::Text(text)) == AgentEventView::TextDelta(text),
        AgentEvent::reported(LoopEventView::ModelFailed(error)) == AgentEventView::Error(error),
{
}

/// What the model gets to read names the tool that is unknown, the reason of a denial and
/// the error of a tool, with where the error came from.
pub proof fn law_wording(text: Seq<char>)
    ensures
        MpscWording::unknown_value(text) == ValueView::String("unknown tool: "@ + text),
        MpscWording::denied_value(text) == ValueView::String("authorization denied: "@ + text),
        MpscWording::failed_value(ErrorView::Agent(text)) == ValueView::String(
            "Error: "@ + ("Agent error: "@ + text),
        ),
        MpscWording::failed_value(ErrorView::Provider(text)) == ValueView::String(
            "Error: "@ + ("LLM provider error: "@ + text),
        ),
{
}

} // verus!
