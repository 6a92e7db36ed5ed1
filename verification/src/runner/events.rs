//! Public event types yielded by a run.
//!
//! [`AgentEvent`] is the union of things that are reported as the agentic loop
//! goes on; [`RunEvent`] tags one of those with the identity of the run that
//! produced it. [`ToolCallResult`] is the outcome of a tool call.
use crate::error::{error_text, Error, ErrorView};
use crate::json::{IntoValue, Value, ValueView};
use crate::model::{MessageList, MessageView, TokenUsage};
use crate::text::prefixed;
use crate::tools::{ToolCallRequest, ToolCallRequestView};
use crate::views::result_view;
use vstd::prelude::*;

verus! {

/// Outcome of executing a single tool call.
///
/// Reported back to the model as the tool result on the next turn.
#[derive(Debug)]
pub enum ToolCallResult {
    /// The tool ran and returned this JSON value.
    Done(Value),
    /// The tool failed. The error is surfaced to the model as a string.
    Failed(Error),
    /// The call was denied; the tool was not invoked.
    Denied,
    /// The model called a tool that is not registered. A result is still sent to
    /// the model so that the assistant turn and the tool-result messages stay
    /// paired.
    Unknown,
}

/// The model of a [`ToolCallResult`].
#[verifier::ext_equal]
pub ghost enum ToolCallResultView {
    Done(ValueView),
    Failed(ErrorView),
    Denied,
    Unknown,
}

impl View for ToolCallResult {
    type V = ToolCallResultView;

    open spec fn view(&self) -> ToolCallResultView {
        match self {
            ToolCallResult::Done(value) => ToolCallResultView::Done(value@),
            ToolCallResult::Failed(error) => ToolCallResultView::Failed(error@),
            ToolCallResult::Denied => ToolCallResultView::Denied,
            ToolCallResult::Unknown => ToolCallResultView::Unknown,
        }
    }
}

impl Clone for ToolCallResult {
    fn clone(&self) -> (res: Self)
        ensures
            res@ == self@,
    {
        match self {
            ToolCallResult::Done(value) => ToolCallResult::Done(value.clone()),
            ToolCallResult::Failed(error) => ToolCallResult::Failed(error.clone()),
            ToolCallResult::Denied => ToolCallResult::Denied,
            ToolCallResult::Unknown => ToolCallResult::Unknown,
        }
    }
}

/// What the model gets to read for the outcome of a tool call.
pub open spec fn call_result_value(result: ToolCallResultView) -> ValueView {
    match result {
        ToolCallResultView::Done(value) => value,
        ToolCallResultView::Failed(error) => ValueView::String(
            "Tool call error: "@ + error_text(error),
        ),
        ToolCallResultView::Denied => ValueView::String("Tool call denied"@),
        ToolCallResultView::Unknown => ValueView::String("Unknown tool"@),
    }
}

impl From<ToolCallResult> for Value {
    /// What the model gets to read.
    fn from(result: ToolCallResult) -> (res: Value)
        ensures
            res@ == call_result_value(result@),
    {
        match result {
            ToolCallResult::Done(value) => value,
            ToolCallResult::Failed(error) => Value::String(
                prefixed("Tool call error: ", error.to_string().as_str()),
            ),
            ToolCallResult::Denied => Value::text("Tool call denied"),
            ToolCallResult::Unknown => Value::text("Unknown tool"),
        }
    }
}

impl vstd::std_specs::convert::FromSpecImpl<ToolCallResult> for Value {
    open spec fn obeys_from_spec() -> bool {
        false
    }

    open spec fn from_spec(result: ToolCallResult) -> Value {
        arbitrary()
    }
}

impl IntoValue for ToolCallResult {
    open spec fn value(&self) -> ValueView {
        call_result_value(self@)
    }

    fn into_value(self) -> (res: Value) {
        Value::from(self)
    }
}

/// The outcome of a tool that ran.
pub open spec fn ran(outcome: Result<ValueView, ErrorView>) -> ToolCallResultView {
    match outcome {
        Ok(value) => ToolCallResultView::Done(value),
        Err(error) => ToolCallResultView::Failed(error),
    }
}

impl From<Result<Value, Error>> for ToolCallResult {
    fn from(outcome: Result<Value, Error>) -> (res: ToolCallResult)
        ensures
            res@ == ran(result_view(outcome)),
    {
        match outcome {
            Ok(value) => ToolCallResult::Done(value),
            Err(error) => ToolCallResult::Failed(error),
        }
    }
}

impl vstd::std_specs::convert::FromSpecImpl<Result<Value, Error>> for ToolCallResult {
    open spec fn obeys_from_spec() -> bool {
        false
    }

    open spec fn from_spec(outcome: Result<Value, Error>) -> ToolCallResult {
        arbitrary()
    }
}

/// An event yielded by a run as the agent loop progresses.
#[derive(Debug)]
pub enum AgentEvent {
    /// The model calls a tool. The loop goes on once the request is answered.
    ToolCall(ToolCallRequest),
    /// A chunk of the model's reasoning/thinking output.
    ThinkingDelta(String),
    /// A chunk of the model's text output. Put together, those of the last model
    /// turn are the reply.
    TextDelta(String),
    /// Token counts reported by the provider for one model call.
    Usage(TokenUsage),
    /// The run has begun: the first event of every run.
    TurnStart,
    /// The run completed normally: the last event, with the whole conversation.
    TurnFinish {
        /// The conversation thread at the point the loop exited.
        thread: MessageList,
    },
    /// The run was cancelled. Nothing comes after it.
    Cancelled,
    /// The provider returned an error. Nothing comes after it.
    Error(Error),
}

/// The model of an [`AgentEvent`].
#[verifier::ext_equal]
pub ghost enum AgentEventView {
    ToolCall(ToolCallRequestView),
    ThinkingDelta(Seq<char>),
    TextDelta(Seq<char>),
    Usage(TokenUsage),
    TurnStart,
    TurnFinish { thread: Seq<MessageView> },
    Cancelled,
    Error(ErrorView),
}

impl View for AgentEvent {
    type V = AgentEventView;

    open spec fn view(&self) -> AgentEventView {
        match self {
            AgentEvent::ToolCall(request) => AgentEventView::ToolCall(request@),
            AgentEvent::ThinkingDelta(text) => AgentEventView::ThinkingDelta(text@),
            AgentEvent::TextDelta(text) => AgentEventView::TextDelta(text@),
            AgentEvent::Usage(usage) => AgentEventView::Usage(*usage),
            AgentEvent::TurnStart => AgentEventView::TurnStart,
            AgentEvent::TurnFinish { thread } => AgentEventView::TurnFinish { thread: thread@ },
            AgentEvent::Cancelled => AgentEventView::Cancelled,
            AgentEvent::Error(error) => AgentEventView::Error(error@),
        }
    }
}

/// An event after which nothing comes.
pub open spec fn is_terminal(event: AgentEventView) -> bool {
    event is TurnFinish || event is Cancelled || event is Error
}

/// An [`AgentEvent`] tagged with the identity of the run that produced it.
#[derive(Debug)]
pub struct RunEvent {
    /// Unique identifier of the run that produced this event.
    pub run_id: usize,
    /// The wrapped event.
    pub agent_event: AgentEvent,
}

/// The model of a [`RunEvent`].
#[verifier::ext_equal]
pub ghost struct RunEventView {
    pub run_id: usize,
    pub agent_event: AgentEventView,
}

impl View for RunEvent {
    type V = RunEventView;

    open spec fn view(&self) -> RunEventView {
        RunEventView { run_id: self.run_id, agent_event: self.agent_event@ }
    }
}

/// What the model gets to read of a call: the result itself, the error with where it came
/// from, or what else happened; and what a tool returned or failed with is its outcome.
pub proof fn law_outcome_wording(value: ValueView, text: Seq<char>, error: ErrorView)
    ensures
        call_result_value(ToolCallResultView::Done(value)) == value,
        call_result_value(ToolCallResultView::Failed(ErrorView::Agent(text))) == ValueView::String(
            "Tool call error: "@ + ("Agent error: "@ + text),
        ),
        call_result_value(ToolCallResultView::Failed(ErrorView::Provider(text)))
            == ValueView::String("Tool call error: "@ + ("LLM provider error: "@ + text)),
        call_result_value(ToolCallResultView::Denied) == ValueView::String("Tool call denied"@),
        call_result_value(ToolCallResultView::Unknown) == ValueView::String("Unknown tool"@),
        ran(Ok(value)) == ToolCallResultView::Done(value),
        ran(Err(error)) == ToolCallResultView::Failed(error),
{
}

} // verus!
