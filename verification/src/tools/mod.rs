//! Tools: what an agent can do besides talking.

pub mod agent_tool;
mod approval;
mod registry;
mod request;
mod tool;

pub use agent_tool::AgentTool;
pub use approval::{ApprovalAnswer, ApprovalRequest, ApprovalRequestView};
pub use registry::{
    check_declared, checked_tools, first_missing, law_checked_tools, lists_all, tool_name,
    KnownTools, ToolRegistry,
};
pub use request::{
    outcome_value, settle_outcome, CallOutcome, CallOutcomeView, ToolCallReply, ToolCallReplyView,
    ToolCallRequest, ToolCallRequestView,
};
pub use tool::{
    law_envelopes_differ, result_envelope, result_key, result_payload, Tool, ToolDefinition,
    ToolDefinitionView, ToolResult, ToolResultView,
};
