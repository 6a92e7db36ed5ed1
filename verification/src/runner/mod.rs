//! Drives an agent against a model until it produces a final reply.
//!
//! An [`AgentRunner`] holds the tools that are offered to the model. Starting a run
//! gives a [`Run`]: the agentic loop as a state machine, which says what to ask the
//! model and what to report.
//!
//! The loop keeps calling the model until a turn comes back with no tool calls.
//! Within a single turn, tool calls are carried out concurrently; their result
//! messages join the thread in the order in which the model issued the calls.
use crate::agent::Agent;
use crate::error::Error;
use crate::model::MessageList;
use crate::runner::ids::{id_after, RunIds};
use crate::runner::run::{started_run, tagged, Run};
use crate::tools::{
    check_declared, checked_tools, KnownTools, ToolDefinition, ToolDefinitionView,
};
use crate::views::{clone_all, result_view, seq_view};
use vstd::prelude::*;

pub mod batch;
mod events;
pub mod ids;
pub mod laws;
pub mod run;

pub use events::{
    call_result_value, is_terminal, ran, AgentEvent, AgentEventView, RunEvent, RunEventView,
    ToolCallResult, ToolCallResultView,
};

verus! {

/// Starts runs of agents, with a set of tools.
pub struct AgentRunner {
    tools: Vec<ToolDefinition>,
}

impl View for AgentRunner {
    type V = Seq<ToolDefinitionView>;

    closed spec fn view(&self) -> Seq<ToolDefinitionView> {
        seq_view(self.tools@)
    }
}

/// The names of the tools that are offered.
pub open spec fn offered_names(tools: Seq<ToolDefinitionView>) -> Set<Seq<char>> {
    Set::new(|name: Seq<char>| exists|i: int| 0 <= i < tools.len() && (#[trigger] tools[i]).name == name)
}

impl Clone for AgentRunner {
    fn clone(&self) -> (res: Self)
        ensures
            res@ == self@,
    {
        AgentRunner { tools: clone_all(&self.tools) }
    }
}

impl AgentRunner {
    /// Creates a runner without tools.
    pub fn new() -> (res: Self)
        ensures
            res@ == Seq::<ToolDefinitionView>::empty(),
    {
        let res = AgentRunner { tools: Vec::new() };
        assert(res@ =~= Seq::empty());
        res
    }

    /// Creates a runner with the supplied tools.
    pub fn with_tools(tools: Vec<ToolDefinition>) -> (res: Self)
        ensures
            res@ == seq_view(tools@),
    {
        AgentRunner { tools }
    }

    /// Starts a run of `agent` from `thread`, the conversation so far.
    ///
    /// The run takes the next identity. The first thing there is to report comes with
    /// it.
    pub fn run(&self, run_ids: &mut RunIds, agent: &Agent, thread: MessageList) -> (res: (
        Run,
        Vec<RunEvent>,
    ))
        ensures
            final(run_ids)@ == id_after(old(run_ids)@),
            res.0@ == started_run(
                old(run_ids)@,
                agent@.instructions,
                agent@.output_schema,
                self@,
                thread@,
            ),
            seq_view(res.1@) == tagged(old(run_ids)@, seq![AgentEventView::TurnStart]),
    {
        let output_schema = match agent.output_schema() {
            Some(schema) => Some(schema.clone()),
            None => None,
        };
        Run::start(
            run_ids.next_run_id(),
            agent.instructions().to_owned(),
            output_schema,
            clone_all(&self.tools),
            thread,
        )
    }

    /// Checks that every tool that `agent` declares is offered: an error names the
    /// first that is not.
    pub fn check_tools(&self, agent: &Agent) -> (res: Result<(), Error>)
        ensures
            result_view(res) == checked_tools(agent@.tool_names, offered_names(self@)),
    {
        check_declared(agent, self)
    }
}

impl KnownTools for AgentRunner {
    open spec fn known_names(&self) -> Set<Seq<char>> {
        offered_names(self@)
    }

    fn knows(&self, name: &str) -> (res: bool) {
        let wanted: String = name.to_owned();
        let mut i: usize = 0;
        while i < self.tools.len()
            invariant
                i <= self.tools@.len(),
                wanted@ == name@,
                forall|j: int| 0 <= j < i ==> (#[trigger] self@[j]).name != name@,
            decreases self.tools@.len() - i,
        {
            assert(self@[i as int] == self.tools@[i as int]@);
            if self.tools[i].name == wanted {
                return true;
            }
            i = i + 1;
        }
        false
    }
}

/// A name is offered exactly if one of the tools goes by it.
pub proof fn law_offered_names(tools: Seq<ToolDefinitionView>, name: Seq<char>)
    ensures
        offered_names(tools).contains(name) <==> exists|i: int|
            0 <= i < tools.len() && (#[trigger] tools[i]).name == name,
{
}

} // verus!
