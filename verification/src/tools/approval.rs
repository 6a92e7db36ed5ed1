use crate::json::{Value, ValueView};
use vstd::prelude::*;

verus! {

/// A request to the consumer to approve or deny a tool call before it runs.
///
/// It has to be answered, with [`respond`](Self::respond), or let go, with
/// [`dismiss`](Self::dismiss), which denies the call.
#[derive(Debug)]
pub struct ApprovalRequest {
    /// The tool call's identifier.
    pub tool_call_id: String,
    /// The name of the tool the model wants to invoke.
    pub tool_name: String,
    /// The raw JSON arguments the model requested.
    pub args: Value,
    /// What the tool resolved the arguments into: the concrete thing that will
    /// happen if approved. For a tool that does no planning it equals `args`.
    pub proposal: Value,
}

/// The model of an [`ApprovalRequest`].
#[verifier::ext_equal]
pub ghost struct ApprovalRequestView {
    pub tool_call_id: Seq<char>,
    pub tool_name: Seq<char>,
    pub args: ValueView,
    pub proposal: ValueView,
}

impl View for ApprovalRequest {
    type V = ApprovalRequestView;

    open spec fn view(&self) -> ApprovalRequestView {
        ApprovalRequestView {
            tool_call_id: self.tool_call_id@,
            tool_name: self.tool_name@,
            args: self.args@,
            proposal: self.proposal@,
        }
    }
}

/// The answer to an [`ApprovalRequest`].
#[derive(Debug)]
pub struct ApprovalAnswer {
    /// The tool call that was decided on.
    pub tool_call_id: String,
    /// Whether it may run.
    pub allowed: bool,
}

impl ApprovalRequest {
    /// Builds a request.
    pub fn new(tool_call_id: String, tool_name: String, args: Value, proposal: Value) -> (res: Self)
        ensures
            res@ == (ApprovalRequestView {
                tool_call_id: tool_call_id@,
                tool_name: tool_name@,
                args: args@,
                proposal: proposal@,
            }),
    {
        ApprovalRequest { tool_call_id, tool_name, args, proposal }
    }

    /// Answers the request: `true` allows the tool call to run, `false` denies it.
    /// It can be answered once.
    pub fn respond(self, allowed: bool) -> (res: ApprovalAnswer)
        ensures
            res.tool_call_id@ == self@.tool_call_id,
            res.allowed == allowed,
    {
        ApprovalAnswer { tool_call_id: self.tool_call_id, allowed }
    }

    /// Lets the request go unanswered. The call is denied.
    pub fn dismiss(self) -> (res: ApprovalAnswer)
        ensures
            res.tool_call_id@ == self@.tool_call_id,
            !res.allowed,
    {
        self.respond(false)
    }
}

} // verus!
