//! Error types returned by the library.
//!
//! Provider adapters wrap transport- and API-level failures into
//! [`Error::Provider`]; agent-side failures use [`Error::Agent`].
use crate::text::prefixed;
use vstd::prelude::*;

verus! {

/// Errors that can occur when running an agent.
#[derive(Debug, PartialEq, Eq)]
pub enum Error {
    /// An error returned by the underlying LLM provider.
    Provider(String),
    /// An error during agent execution.
    Agent(String),
}

/// The model of an [`Error`].
#[verifier::ext_equal]
pub ghost enum ErrorView {
    Provider(Seq<char>),
    Agent(Seq<char>),
}

impl View for Error {
    type V = ErrorView;

    open spec fn view(&self) -> ErrorView {
        match self {
            Error::Provider(message) => ErrorView::Provider(message@),
            Error::Agent(message) => ErrorView::Agent(message@),
        }
    }
}

/// What an error reads as.
pub open spec fn error_text(error: ErrorView) -> Seq<char> {
    match error {
        ErrorView::Provider(message) => "LLM provider error: "@ + message,
        ErrorView::Agent(message) => "Agent error: "@ + message,
    }
}

impl Clone for Error {
    fn clone(&self) -> (res: Self)
        ensures
            res@ == self@,
    {
        match self {
            Error::Provider(message) => Error::Provider(message.clone()),
            Error::Agent(message) => Error::Agent(message.clone()),
        }
    }
}

impl Error {
    /// The error as a text for people to read.
    pub fn to_string(&self) -> (res: String)
        ensures
            res@ == error_text(self@),
    {
        match self {
            Error::Provider(message) => prefixed("LLM provider error: ", message.as_str()),
            Error::Agent(message) => prefixed("Agent error: ", message.as_str()),
        }
    }
}

/// An error reads as where it came from and what it says.
pub proof fn law_error_text(text: Seq<char>)
    ensures
        error_text(ErrorView::Provider(text)) == "LLM provider error: "@ + text,
        error_text(ErrorView::Agent(text)) == "Agent error: "@ + text,
{
}

} // verus!
