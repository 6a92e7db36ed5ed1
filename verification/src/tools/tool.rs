use crate::json::{IntoValue, Value, ValueView};
use crate::render::{display, is_display};
use vstd::prelude::*;

verus! {

/// Describes a tool to the model: its name, purpose, and parameter schema.
#[derive(Debug, PartialEq, Eq)]
pub struct ToolDefinition {
    /// The tool name the model uses to invoke it.
    pub name: String,
    /// A human-readable description that helps the model decide when to call
    /// this tool.
    pub description: String,
    /// JSON Schema object describing the arguments the model must pass.
    pub parameters: Value,
}

/// The model of a [`ToolDefinition`].
#[verifier::ext_equal]
pub ghost struct ToolDefinitionView {
    pub name: Seq<char>,
    pub description: Seq<char>,
    pub parameters: ValueView,
}

impl View for ToolDefinition {
    type V = ToolDefinitionView;

    open spec fn view(&self) -> ToolDefinitionView {
        ToolDefinitionView {
            name: self.name@,
            description: self.description@,
            parameters: self.parameters@,
        }
    }
}

impl Clone for ToolDefinition {
    fn clone(&self) -> (res: Self)
        ensures
            res@ == self@,
    {
        ToolDefinition {
            name: self.name.clone(),
            description: self.description.clone(),
            parameters: self.parameters.clone(),
        }
    }
}

/// A callable tool, as far as it is described to the model and to people.
pub trait Tool {
    /// What the tool is. Every implementation says so for itself.
    closed spec fn spec_definition(&self) -> ToolDefinitionView {
        arbitrary()
    }

    /// Returns the definition that describes this tool to the model.
    fn definition(&self) -> (res: &ToolDefinition)
        ensures
            res@ == self.spec_definition(),
    ;

    /// Returns a short, human-readable title for a specific invocation.
    ///
    /// The default is the tool's name; override it to derive a more descriptive
    /// label from the arguments.
    fn title(&self, args: &Value) -> (res: String)
        default_ensures
            res@ == self.spec_definition().name,
    {
        self.definition().name.clone()
    }
}

/// The outcome of a [`Tool`] call: a success payload or an error, each carrying
/// arbitrary JSON.
///
/// A tool error does not abort the run; it is sent to the model as data so that it
/// can react. On the way there the payload is put into an envelope that tells the
/// two apart: [`Success(v)`](ToolResult::Success) becomes `{"success": v}` and
/// [`Failure(v)`](ToolResult::Failure) becomes `{"error": v}`.
#[derive(Debug, PartialEq, Eq)]
#[must_use]
pub enum ToolResult {
    /// A successful call, with the tool's output.
    Success(Value),
    /// A failed call, with what describes the error.
    Failure(Value),
}

/// The model of a [`ToolResult`].
#[verifier::ext_equal]
pub ghost enum ToolResultView {
    Success(ValueView),
    Failure(ValueView),
}

impl View for ToolResult {
    type V = ToolResultView;

    open spec fn view(&self) -> ToolResultView {
        match self {
            ToolResult::Success(value) => ToolResultView::Success(value@),
            ToolResult::Failure(value) => ToolResultView::Failure(value@),
        }
    }
}

/// The key that a payload reaches the model under.
pub open spec fn result_key(result: ToolResultView) -> Seq<char> {
    match result {
        ToolResultView::Success(_) => "success"@,
        ToolResultView::Failure(_) => "error"@,
    }
}

/// The payload, whichever it is.
pub open spec fn result_payload(result: ToolResultView) -> ValueView {
    match result {
        ToolResultView::Success(value) => value,
        ToolResultView::Failure(value) => value,
    }
}

/// A result in its envelope.
pub open spec fn result_envelope(result: ToolResultView) -> ValueView {
    ValueView::Object(map![result_key(result) => result_payload(result)])
}

impl ToolResult {
    /// Builds a [`Success`](ToolResult::Success) from anything convertible into a [`Value`].
    pub fn ok<T: IntoValue>(result: T) -> (res: Self)
        ensures
            res@ == ToolResultView::Success(result.value()),
    {
        ToolResult::Success(result.into_value())
    }

    /// Builds a [`Failure`](ToolResult::Failure) from anything convertible into a [`Value`].
    pub fn error<T: IntoValue>(error: T) -> (res: Self)
        ensures
            res@ == ToolResultView::Failure(error.value()),
    {
        ToolResult::Failure(error.into_value())
    }

    /// The key that the payload reaches the model under.
    pub fn key(&self) -> (res: &'static str)
        ensures
            res@ == result_key(self@),
    {
        match self {
            ToolResult::Success(_) => "success",
            ToolResult::Failure(_) => "error",
        }
    }
}

impl From<ToolResult> for Value {
    /// Puts the payload into its envelope.
    fn from(result: ToolResult) -> (res: Value)
        ensures
            res@ == result_envelope(result@),
    {
        let key: String = result.key().to_owned();
        match result {
            ToolResult::Success(value) => Value::singleton(key, value),
            ToolResult::Failure(value) => Value::singleton(key, value),
        }
    }
}

impl vstd::std_specs::convert::FromSpecImpl<ToolResult> for Value {
    open spec fn obeys_from_spec() -> bool {
        false
    }

    open spec fn from_spec(result: ToolResult) -> Value {
        arbitrary()
    }
}

impl IntoValue for ToolResult {
    open spec fn value(&self) -> ValueView {
        result_envelope(self@)
    }

    fn into_value(self) -> (res: Value) {
        Value::from(self)
    }
}

/// The model can always tell a success from an error.
pub proof fn law_envelopes_differ(success: ValueView, error: ValueView)
    ensures
        result_envelope(ToolResultView::Success(success)) != result_envelope(ToolResultView::Failure(error)),
{
    reveal_strlit("success");
    reveal_strlit("error");
    let left = result_envelope(ToolResultView::Success(success))->Object_0;
    let right = result_envelope(ToolResultView::Failure(error))->Object_0;
    assert("success"@.len() != "error"@.len());
    assert(left.dom().contains("success"@));
    assert(!right.dom().contains("success"@));
}

impl ToolResult {
    /// The envelope as compact JSON.
    pub fn to_string(&self) -> (res: String)
        ensures
            is_display(result_envelope(self@), res@),
    {
        let payload = match self {
            ToolResult::Success(value) => value.clone(),
            ToolResult::Failure(value) => value.clone(),
        };
        display(&Value::singleton(self.key().to_owned(), payload))
    }
}

/// A payload reaches the model unchanged, under `success` or under `error`, and with
/// nothing beside it.
pub proof fn law_envelope_holds_payload(value: ValueView)
    ensures
        ({
            let envelope = result_envelope(ToolResultView::Success(value));
            &&& envelope is Object
            &&& envelope->Object_0.dom() == set!["success"@]
            &&& envelope->Object_0["success"@] == value
        }),
        ({
            let envelope = result_envelope(ToolResultView::Failure(value));
            &&& envelope is Object
            &&& envelope->Object_0.dom() == set!["error"@]
            &&& envelope->Object_0["error"@] == value
        }),
{
    assert(map!["success"@ => value].dom() =~= set!["success"@]);
    assert(map!["error"@ => value].dom() =~= set!["error"@]);
}

} // verus!
