use crate::json::{Value, ValueView};
use crate::text::IntoText;
use crate::views::{clone_all, clone_option, lemma_seq_view_push, option_view, seq_view};
use vstd::prelude::*;

verus! {

/// A blueprint describing an agent's identity and behaviour.
///
/// `Agent` holds only static configuration: a name, system instructions, an
/// optional JSON Schema for structured output, and the names of tools the agent is
/// permitted to use. It carries no model or runtime state.
#[derive(Debug)]
pub struct Agent {
    pub(crate) name: String,
    pub(crate) instructions: String,
    pub(crate) output_schema: Option<Value>,
    pub(crate) tool_names: Vec<String>,
}

/// The model of an [`Agent`].
#[verifier::ext_equal]
pub ghost struct AgentView {
    pub name: Seq<char>,
    pub instructions: Seq<char>,
    pub output_schema: Option<ValueView>,
    pub tool_names: Seq<Seq<char>>,
}

impl View for Agent {
    type V = AgentView;

    closed spec fn view(&self) -> AgentView {
        AgentView {
            name: self.name@,
            instructions: self.instructions@,
            output_schema: option_view(self.output_schema),
            tool_names: seq_view(self.tool_names@),
        }
    }
}

impl Clone for Agent {
    fn clone(&self) -> (res: Self)
        ensures
            res@ == self@,
    {
        Agent {
            name: self.name.clone(),
            instructions: self.instructions.clone(),
            output_schema: clone_option(&self.output_schema),
            tool_names: clone_all(&self.tool_names),
        }
    }
}

impl Agent {
    /// Returns a builder for constructing an [`Agent`].
    pub fn builder() -> (res: AgentBuilder)
        ensures
            res@ == empty_builder(),
    {
        AgentBuilder::default()
    }

    /// The agent's display name.
    pub fn name(&self) -> (res: &str)
        ensures
            res@ == self@.name,
    {
        self.name.as_str()
    }

    /// The system instructions passed to the model on every run.
    pub fn instructions(&self) -> (res: &str)
        ensures
            res@ == self@.instructions,
    {
        self.instructions.as_str()
    }

    /// The JSON Schema the agent's output must conform to, if any.
    pub fn output_schema(&self) -> (res: Option<&Value>)
        ensures
            option_view(res) == self@.output_schema,
    {
        self.output_schema.as_ref()
    }

    /// The names of tools this agent is permitted to use.
    pub fn tool_names(&self) -> (res: &[String])
        ensures
            seq_view(res@) == self@.tool_names,
    {
        self.tool_names.as_slice()
    }
}

/// Builder for [`Agent`].
pub struct AgentBuilder {
    name: Option<String>,
    instructions: Option<String>,
    output_schema: Option<Value>,
    tool_names: Vec<String>,
}

/// The model of an [`AgentBuilder`].
#[verifier::ext_equal]
pub ghost struct AgentBuilderView {
    pub name: Option<Seq<char>>,
    pub instructions: Option<Seq<char>>,
    pub output_schema: Option<ValueView>,
    pub tool_names: Seq<Seq<char>>,
}

impl View for AgentBuilder {
    type V = AgentBuilderView;

    closed spec fn view(&self) -> AgentBuilderView {
        AgentBuilderView {
            name: option_view(self.name),
            instructions: option_view(self.instructions),
            output_schema: option_view(self.output_schema),
            tool_names: seq_view(self.tool_names@),
        }
    }
}

/// A builder on which nothing has been set.
pub open spec fn empty_builder() -> AgentBuilderView {
    AgentBuilderView {
        name: None,
        instructions: None,
        output_schema: None,
        tool_names: Seq::empty(),
    }
}

impl Default for AgentBuilder {
    fn default() -> (res: Self)
        ensures
            res@ == empty_builder(),
    {
        let res = AgentBuilder {
            name: None,
            instructions: None,
            output_schema: None,
            tool_names: Vec::new(),
        };
        assert(res@.tool_names =~= Seq::empty());
        res
    }
}

impl AgentBuilder {
    /// Sets the agent's display name.
    pub fn name<T: IntoText>(self, name: T) -> (res: Self)
        ensures
            res@ == (AgentBuilderView { name: Some(name.text()), ..self@ }),
    {
        AgentBuilder {
            name: Some(name.into_text()),
            instructions: self.instructions,
            output_schema: self.output_schema,
            tool_names: self.tool_names,
        }
    }

    /// Sets the system instructions for the agent.
    pub fn instructions<T: IntoText>(self, instructions: T) -> (res: Self)
        ensures
            res@ == (AgentBuilderView { instructions: Some(instructions.text()), ..self@ }),
    {
        AgentBuilder {
            name: self.name,
            instructions: Some(instructions.into_text()),
            output_schema: self.output_schema,
            tool_names: self.tool_names,
        }
    }

    /// Constrains the agent's output to the given JSON Schema.
    pub fn output_schema(self, schema: Value) -> (res: Self)
        ensures
            res@ == (AgentBuilderView { output_schema: Some(schema@), ..self@ }),
    {
        AgentBuilder {
            name: self.name,
            instructions: self.instructions,
            output_schema: Some(schema),
            tool_names: self.tool_names,
        }
    }

    /// Declares that this agent may use the tool with the given name. Call this
    /// once per tool.
    pub fn tool<T: IntoText>(self, name: T) -> (res: Self)
        ensures
            res@ == (AgentBuilderView { tool_names: self@.tool_names.push(name.text()), ..self@ }),
    {
        let mut tool_names = self.tool_names;
        let ghost before = tool_names@;
        tool_names.push(name.into_text());
        proof {
            lemma_seq_view_push(before, tool_names@.last());
        }
        AgentBuilder {
            name: self.name,
            instructions: self.instructions,
            output_schema: self.output_schema,
            tool_names,
        }
    }

    /// Whether both the name and the instructions have been set.
    pub fn is_complete(&self) -> (res: bool)
        ensures
            res == (self@.name is Some && self@.instructions is Some),
    {
        self.name.is_some() && self.instructions.is_some()
    }

    /// Builds the [`Agent`]. The name and the instructions have to be set.
    pub fn build(self) -> (res: Agent)
        requires
            self@.name is Some,
            self@.instructions is Some,
        ensures
            res@ == (AgentView {
                name: self@.name->0,
                instructions: self@.instructions->0,
                output_schema: self@.output_schema,
                tool_names: self@.tool_names,
            }),
    {
        Agent {
            name: self.name.expect("Agent::builder requires a name"),
            instructions: self.instructions.expect("Agent::builder requires instructions"),
            output_schema: self.output_schema,
            tool_names: self.tool_names,
        }
    }
}

/// An agent that is being built has nothing until it is set.
pub proof fn law_empty_builder()
    ensures
        empty_builder().name is None,
        empty_builder().instructions is None,
        empty_builder().output_schema is None,
        empty_builder().tool_names.len() == 0,
{
}

} // verus!
