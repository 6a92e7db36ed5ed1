//! Authorization policy for tool calls.
use crate::json::Value;
use vstd::prelude::*;

pub use crate::tools::{ApprovalAnswer, ApprovalRequest};

verus! {

/// Decides which tool calls require the consumer's approval before they run.
///
/// A runner that holds an `AuthManager` consults it for every tool call it is about
/// to make. How the approval is obtained is the consumer's concern.
pub trait AuthManager {
    /// Whether this call requires approval. Always, unless overridden.
    fn requires_authorization(&self, name: &str, args: &Value) -> (res: bool)
        default_ensures
            res,
    {
        true
    }
}

/// The policy under which every tool call requires approval.
#[derive(Debug, Clone, Copy)]
pub struct AlwaysAsk;

impl AuthManager for AlwaysAsk {

}

} // verus!
