use crate::json::{IntoValue, Value, ValueView};
use crate::model::{ToolCall, ToolCallView};
use std::sync::Arc;
use vstd::prelude::*;

verus! {

/// A request to whoever consumes a run to carry out a tool call.
#[derive(Debug)]
pub struct ToolCallRequest {
    /// The call to carry out.
    pub details: Arc<ToolCall>,
    /// Which of the turn's calls this is.
    pub index: usize,
}

/// The model of a [`ToolCallRequest`].
#[verifier::ext_equal]
pub ghost struct ToolCallRequestView {
    pub details: ToolCallView,
    pub index: int,
}

impl View for ToolCallRequest {
    type V = ToolCallRequestView;

    open spec fn view(&self) -> ToolCallRequestView {
        ToolCallRequestView { details: self.details@, index: self.index as int }
    }
}

/// How a tool call ended.
#[derive(Debug)]
pub enum CallOutcome {
    /// The consumer gave a result.
    Resolved(Value),
    /// The consumer let the request go without a result.
    Dropped,
    /// The run was cancelled first.
    Cancelled,
}

/// The model of a [`CallOutcome`].
#[verifier::ext_equal]
pub ghost enum CallOutcomeView {
    Resolved(ValueView),
    Dropped,
    Cancelled,
}

impl View for CallOutcome {
    type V = CallOutcomeView;

    open spec fn view(&self) -> CallOutcomeView {
        match self {
            CallOutcome::Resolved(value) => CallOutcomeView::Resolved(value@),
            CallOutcome::Dropped => CallOutcomeView::Dropped,
            CallOutcome::Cancelled => CallOutcomeView::Cancelled,
        }
    }
}

/// The answer to a [`ToolCallRequest`].
#[derive(Debug)]
pub struct ToolCallReply {
    /// Which of the turn's calls this answers.
    pub index: usize,
    /// How the call ended.
    pub outcome: CallOutcome,
}

/// The model of a [`ToolCallReply`].
#[verifier::ext_equal]
pub ghost struct ToolCallReplyView {
    pub index: int,
    pub outcome: CallOutcomeView,
}

impl View for ToolCallReply {
    type V = ToolCallReplyView;

    open spec fn view(&self) -> ToolCallReplyView {
        ToolCallReplyView { index: self.index as int, outcome: self.outcome@ }
    }
}

impl ToolCallRequest {
    /// Builds the request for a call.
    pub fn new(tool_call: Arc<ToolCall>, index: usize) -> (res: Self)
        ensures
            res@ == (ToolCallRequestView { details: tool_call@, index: index as int }),
    {
        ToolCallRequest { details: tool_call, index }
    }

    /// Answers the request with a result. It can be answered once.
    pub fn resolve<T: IntoValue>(self, result: T) -> (res: ToolCallReply)
        ensures
            res@ == (ToolCallReplyView {
                index: self@.index,
                outcome: CallOutcomeView::Resolved(result.value()),
            }),
    {
        ToolCallReply { index: self.index, outcome: CallOutcome::Resolved(result.into_value()) }
    }

    /// Lets the request go without a result.
    pub fn dismiss(self) -> (res: ToolCallReply)
        ensures
            res@ == (ToolCallReplyView { index: self@.index, outcome: CallOutcomeView::Dropped }),
    {
        ToolCallReply { index: self.index, outcome: CallOutcome::Dropped }
    }
}

/// What the model gets to read for a tool call that ended in some way.
pub open spec fn outcome_value(name: Seq<char>, outcome: CallOutcomeView) -> ValueView {
    match outcome {
        CallOutcomeView::Resolved(value) => value,
        CallOutcomeView::Dropped => ValueView::String("Tool call "@ + name + " failed"@),
        CallOutcomeView::Cancelled => ValueView::String("Cancelled"@),
    }
}

/// What the model gets to read for the tool call `name` that ended with `outcome`.
pub fn settle_outcome(name: &str, outcome: CallOutcome) -> (res: Value)
    ensures
        res@ == outcome_value(name@, outcome@),
{
    match outcome {
        CallOutcome::Resolved(value) => value,
        CallOutcome::Dropped => {
            let mut text: String = "Tool call ".to_owned();
            text.append(name);
            text.append(" failed");
            Value::String(text)
        },
        CallOutcome::Cancelled => Value::text("Cancelled"),
    }
}

/// What the model gets to read of a call: the value that the consumer gave, that the call
/// failed, by its name, or that it was cancelled.
pub proof fn law_outcome_value(name: Seq<char>, value: ValueView)
    ensures
        outcome_value(name, CallOutcomeView::Resolved(value)) == value,
        outcome_value(name, CallOutcomeView::Dropped) == ValueView::String(
            "Tool call "@ + name + " failed"@,
        ),
        outcome_value(name, CallOutcomeView::Cancelled) == ValueView::String("Cancelled"@),
{
}

} // verus!
