use crate::agent::Agent;
use crate::error::{Error, ErrorView};
use crate::text::prefixed;
use crate::tools::{Tool, ToolDefinition, ToolDefinitionView};
use crate::views::{result_view, seq_view};
use std::sync::Arc;
use vstd::prelude::*;

verus! {

/// A collection of [`Tool`]s keyed by name.
///
/// A registry is independent of any runner, so a single one can be shared. Build
/// one with the chained [`register`](Self::register) method.
pub struct ToolRegistry<T: Tool> {
    tools: Vec<T>,
}

/// The name that a tool goes by.
pub open spec fn tool_name<T: Tool>(tool: T) -> Seq<char> {
    tool.spec_definition().name
}

/// `definitions` are those of all the tools, each once.
pub open spec fn lists_all<T: Tool>(
    tools: Map<Seq<char>, T>,
    definitions: Seq<ToolDefinitionView>,
) -> bool {
    &&& definitions.len() == tools.len()
    &&& forall|i: int|
        0 <= i < definitions.len() ==> tools.dom().contains((#[trigger] definitions[i]).name)
            && tools[definitions[i].name].spec_definition() == definitions[i]
    &&& forall|i: int, j: int|
        0 <= i < j < definitions.len() ==> (#[trigger] definitions[i]).name != (
        #[trigger] definitions[j]).name
}

/// The first of `names` that is not known.
pub open spec fn first_missing(names: Seq<Seq<char>>, known: Set<Seq<char>>) -> Option<Seq<char>>
    decreases names.len(),
{
    if names.len() == 0 {
        None
    } else {
        match first_missing(names.drop_last(), known) {
            Some(name) => Some(name),
            None => if known.contains(names.last()) {
                None
            } else {
                Some(names.last())
            },
        }
    }
}

/// What comes of checking the tools that an agent declares: an error for the first
/// that is not known, and success where all are.
pub open spec fn checked_tools(names: Seq<Seq<char>>, known: Set<Seq<char>>) -> Result<
    (),
    ErrorView,
> {
    match first_missing(names, known) {
        Some(name) => Err(ErrorView::Agent("no registered implementation for tool: "@ + name)),
        None => Ok(()),
    }
}

/// One name more: where those before are known, it is the first that may be missing,
/// and if it is, those after it do not matter.
proof fn lemma_first_missing(names: Seq<Seq<char>>, known: Set<Seq<char>>, i: int)
    requires
        0 <= i < names.len(),
        first_missing(names.take(i), known) is None,
    ensures
        first_missing(names.take(i + 1), known) is None <==> known.contains(names[i]),
        !known.contains(names[i]) ==> first_missing(names, known) == Some(names[i]),
{
    assert(names.take(i + 1).drop_last() =~= names.take(i));
    if !known.contains(names[i]) {
        lemma_missing_stays(names, known, i + 1);
    }
}

/// A name that is missing stays the first whatever follows.
proof fn lemma_missing_stays(names: Seq<Seq<char>>, known: Set<Seq<char>>, n: int)
    requires
        0 <= n <= names.len(),
        first_missing(names.take(n), known) is Some,
    ensures
        first_missing(names, known) == first_missing(names.take(n), known),
    decreases names.len() - n,
{
    if n == names.len() {
        assert(names.take(n) =~= names);
    } else {
        assert(names.take(n + 1).drop_last() =~= names.take(n));
        lemma_missing_stays(names, known, n + 1);
    }
}

/// Something that knows tools by name.
pub trait KnownTools {
    /// The names that are known.
    spec fn known_names(&self) -> Set<Seq<char>>;

    /// Whether a tool of this name is known.
    fn knows(&self, name: &str) -> (res: bool)
        ensures
            res == self.known_names().contains(name@),
    ;
}

/// Checks that every tool that `agent` declares is known: an error names the first that
/// is not.
pub fn check_declared<K: KnownTools>(agent: &Agent, tools: &K) -> (res: Result<(), Error>)
    ensures
        result_view(res) == checked_tools(agent@.tool_names, tools.known_names()),
{
    let declared: &[String] = agent.tool_names();
    let ghost names = agent@.tool_names;
    let ghost known = tools.known_names();
    assert(seq_view(declared@) == names);
    let mut i: usize = 0;
    while i < declared.len()
        invariant
            i <= declared@.len(),
            seq_view(declared@) == names,
            names == agent@.tool_names,
            known == tools.known_names(),
            first_missing(names.take(i as int), known) is None,
        decreases declared@.len() - i,
    {
        assert(names[i as int] == declared@[i as int]@);
        proof {
            lemma_first_missing(names, known, i as int);
        }
        let name = declared[i].as_str();
        if !tools.knows(name) {
            return Err(Error::Agent(prefixed("no registered implementation for tool: ", name)));
        }
        i = i + 1;
    }
    assert(names.take(i as int) =~= names);
    Ok(())
}

/// Checking succeeds exactly if every tool that is declared is known.
pub proof fn law_checked_tools(names: Seq<Seq<char>>, known: Set<Seq<char>>)
    ensures
        checked_tools(names, known) is Ok <==> forall|i: int|
            0 <= i < names.len() ==> known.contains(#[trigger] names[i]),
    decreases names.len(),
{
    if names.len() > 0 {
        let before = names.drop_last();
        law_checked_tools(before, known);
        if checked_tools(before, known) is Ok && known.contains(names.last()) {
            assert forall|i: int| 0 <= i < names.len() implies known.contains(#[trigger] names[i]) by {
                if i < before.len() {
                    assert(before[i] == names[i]);
                }
            }
        }
        if forall|i: int| 0 <= i < names.len() ==> known.contains(#[trigger] names[i]) {
            assert forall|i: int| 0 <= i < before.len() implies known.contains(
                #[trigger] before[i],
            ) by {
                assert(before[i] == names[i]);
            }
            assert(known.contains(names[names.len() - 1]));
        }
    }
}

/// `name` is the name of some tool.
spec fn has_name<T: Tool>(tools: Seq<T>, name: Seq<char>) -> bool {
    exists|i: int| 0 <= i < tools.len() && tool_name(#[trigger] tools[i]) == name
}

/// A tool with `name`, where there is one.
spec fn index_of_name<T: Tool>(tools: Seq<T>, name: Seq<char>) -> int {
    choose|i: int| 0 <= i < tools.len() && tool_name(#[trigger] tools[i]) == name
}

/// No name occurs twice.
spec fn distinct_names<T: Tool>(tools: Seq<T>) -> bool {
    forall|i: int, j: int|
        0 <= i < j < tools.len() ==> tool_name(#[trigger] tools[i]) != tool_name(
            #[trigger] tools[j],
        )
}

/// The tools by name.
spec fn tools_by_name<T: Tool>(tools: Seq<T>) -> Map<Seq<char>, T> {
    Map::new(
        |name: Seq<char>| has_name(tools, name),
        |name: Seq<char>| tools[index_of_name(tools, name)],
    )
}

/// There is one tool for a name.
proof fn lemma_tool<T: Tool>(tools: Seq<T>, i: int)
    requires
        distinct_names(tools),
        0 <= i < tools.len(),
    ensures
        has_name(tools, tool_name(tools[i])),
        index_of_name(tools, tool_name(tools[i])) == i,
{
    let name = tool_name(tools[i]);
    assert(has_name(tools, name));
    let j = index_of_name(tools, name);
    assert(tool_name(tools[j]) == tool_name(tools[i]));
}

impl<T: Tool> View for ToolRegistry<T> {
    type V = Map<Seq<char>, T>;

    closed spec fn view(&self) -> Map<Seq<char>, T> {
        tools_by_name(self.tools@)
    }
}

impl<T: Tool> ToolRegistry<T> {
    #[verifier::type_invariant]
    spec fn names_are_distinct(self) -> bool {
        distinct_names(self.tools@)
    }

    /// Creates an empty registry.
    pub fn new() -> (res: Self)
        ensures
            res@ == Map::<Seq<char>, T>::empty(),
    {
        let res = ToolRegistry { tools: Vec::new() };
        assert(res@ =~= Map::empty());
        res
    }

    /// Returns an empty registry to be shared.
    pub fn empty() -> (res: Arc<Self>)
        ensures
            res@ == Map::<Seq<char>, T>::empty(),
    {
        Arc::new(ToolRegistry::new())
    }

    /// The position of `name`.
    fn position(&self, name: &str) -> (res: Option<usize>)
        ensures
            match res {
                Some(i) => i < self.tools@.len() && tool_name(self.tools@[i as int]) == name@,
                None => !has_name(self.tools@, name@),
            },
    {
        let wanted: String = name.to_owned();
        let mut i: usize = 0;
        while i < self.tools.len()
            invariant
                i <= self.tools@.len(),
                wanted@ == name@,
                forall|j: int| 0 <= j < i ==> tool_name(#[trigger] self.tools@[j]) != name@,
            decreases self.tools@.len() - i,
        {
            if self.tools[i].definition().name == wanted {
                return Some(i);
            }
            i = i + 1;
        }
        None
    }

    /// Registers a [`Tool`], keyed by the name in its definition.
    ///
    /// If a tool with the same name is already registered, it is replaced.
    /// Consumes and returns the registry for builder-style chaining.
    pub fn register(self, tool: T) -> (res: Self)
        ensures
            res@ == self@.insert(tool_name(tool), tool),
    {
        proof {
            use_type_invariant(&self);
        }
        let ghost before = self.tools@;
        let ghost name = tool_name(tool);
        let found = self.position(tool.definition().name.as_str());
        let mut tools = self.tools;
        match found {
            Some(i) => {
                tools.set(i, tool);
            },
            None => {
                tools.push(tool);
            },
        }
        proof {
            let now = tools@;
            let at = match found {
                Some(i) => i as int,
                None => before.len() as int,
            };
            assert(now == (if found is Some {
                before.update(at, tool)
            } else {
                before.push(tool)
            }));
            assert(distinct_names(now)) by {
                if found is None {
                    assert forall|j: int| 0 <= j < before.len() implies tool_name(
                        #[trigger] before[j],
                    ) != name by {
                        assert(!has_name(before, name));
                    }
                }
            }
            lemma_tool(now, at);
            assert forall|other: Seq<char>| has_name(now, other) == (has_name(before, other) || other
                == name) by {
                if has_name(before, other) {
                    let j = index_of_name(before, other);
                    assert(j == at || now[j] == before[j]);
                }
                if has_name(now, other) && other != name {
                    let j = index_of_name(now, other);
                    assert(before[j] == now[j]);
                }
            }
            assert forall|other: Seq<char>| has_name(before, other) && other != name implies now[index_of_name(
                now,
                other,
            )] == before[index_of_name(before, other)] by {
                let j = index_of_name(before, other);
                assert(now[j] == before[j]);
                lemma_tool(now, j);
            }
            assert(tools_by_name(now) =~= tools_by_name(before).insert(name, tool));
        }
        ToolRegistry { tools }
    }

    /// Returns every registered tool's definition, each once.
    pub fn definitions(&self) -> (res: Vec<ToolDefinition>)
        ensures
            self@.dom().finite(),
            lists_all(self@, seq_view(res@)),
    {
        proof {
            use_type_invariant(self);
        }
        let ghost all = self.tools@;
        let mut definitions: Vec<ToolDefinition> = Vec::new();
        let mut i: usize = 0;
        while i < self.tools.len()
            invariant
                all == self.tools@,
                i <= all.len(),
                definitions@.len() == i,
                forall|j: int|
                    0 <= j < i ==> (#[trigger] definitions@[j])@ == all[j].spec_definition(),
            decreases all.len() - i,
        {
            definitions.push(self.tools[i].definition().clone());
            i = i + 1;
        }
        proof {
            let names = all.map_values(|tool: T| tool_name(tool));
            assert(names.no_duplicates());
            names.unique_seq_to_set();
            assert(self@.dom() =~= names.to_set()) by {
                assert forall|name: Seq<char>| has_name(all, name) implies names.contains(name) by {
                    assert(names[index_of_name(all, name)] == name);
                }
                assert forall|name: Seq<char>| names.contains(name) implies has_name(all, name) by {
                    let j = choose|j: int| 0 <= j < names.len() && names[j] == name;
                    assert(tool_name(all[j]) == name);
                }
            }
            let listed = seq_view(definitions@);
            assert forall|j: int| 0 <= j < listed.len() implies self@.dom().contains(
                (#[trigger] listed[j]).name,
            ) && self@[listed[j].name].spec_definition() == listed[j] by {
                assert(listed[j] == definitions@[j]@);
                lemma_tool(all, j);
            }
            assert forall|j: int, k: int| 0 <= j < k < listed.len() implies (
            #[trigger] listed[j]).name != (#[trigger] listed[k]).name by {
                assert(listed[j] == definitions@[j]@ && listed[k] == definitions@[k]@);
                assert(tool_name(all[j]) != tool_name(all[k]));
            }
        }
        definitions
    }

    /// Returns the tool registered under `name`, or `None` if not found.
    pub fn get(&self, name: &str) -> (res: Option<&T>)
        ensures
            match res {
                Some(tool) => self@.dom().contains(name@) && *tool == self@[name@] && tool_name(*tool)
                    == name@,
                None => !self@.dom().contains(name@),
            },
    {
        proof {
            use_type_invariant(self);
        }
        match self.position(name) {
            Some(i) => {
                proof {
                    lemma_tool(self.tools@, i as int);
                }
                Some(&self.tools[i])
            },
            None => None,
        }
    }

    /// Checks that every tool that `agent` declares is registered: an error names the
    /// first that is not.
    pub fn check_tools(&self, agent: &Agent) -> (res: Result<(), Error>)
        ensures
            result_view(res) == checked_tools(agent@.tool_names, self@.dom()),
    {
        check_declared(agent, self)
    }

    /// Returns `true` if a tool with the given name is registered.
    pub fn contains(&self, name: &str) -> (res: bool)
        ensures
            res == self@.dom().contains(name@),
    {
        self.position(name).is_some()
    }
}

impl<T: Tool> KnownTools for ToolRegistry<T> {
    open spec fn known_names(&self) -> Set<Seq<char>> {
        self@.dom()
    }

    fn knows(&self, name: &str) -> (res: bool) {
        self.contains(name)
    }
}

impl<T: Tool> Default for ToolRegistry<T> {
    fn default() -> (res: Self)
        ensures
            res@ == Map::<Seq<char>, T>::empty(),
    {
        ToolRegistry::new()
    }
}

/// Where a tool is not known, the error names the first such tool that is declared.
pub proof fn law_first_unknown_is_named(names: Seq<Seq<char>>, known: Set<Seq<char>>, i: int)
    requires
        0 <= i < names.len(),
        !known.contains(names[i]),
        forall|j: int| 0 <= j < i ==> known.contains(#[trigger] names[j]),
    ensures
        checked_tools(names, known) == Err::<(), ErrorView>(
            ErrorView::Agent("no registered implementation for tool: "@ + names[i]),
        ),
{
    law_checked_tools(names.take(i), known);
    assert forall|j: int| 0 <= j < i implies known.contains(#[trigger] names.take(i)[j]) by {
        assert(names.take(i)[j] == names[j]);
    }
    lemma_first_missing(names, known, i);
}

/// The definitions of a registry leave no tool out: for every name that is registered
/// there is the definition of the tool that goes by it.
pub proof fn law_every_tool_is_listed<T: Tool>(
    tools: Map<Seq<char>, T>,
    definitions: Seq<ToolDefinitionView>,
    name: Seq<char>,
)
    requires
        tools.dom().finite(),
        lists_all(tools, definitions),
        tools.dom().contains(name),
    ensures
        exists|i: int|
            0 <= i < definitions.len() && (#[trigger] definitions[i]).name == name && definitions[i]
                == tools[name].spec_definition(),
{
    let names = definitions.map_values(|definition: ToolDefinitionView| definition.name);
    assert(names.no_duplicates()) by {
        assert forall|i: int, j: int|
            0 <= i < names.len() && 0 <= j < names.len() && i != j implies names[i] != names[j] by {
            if i < j {
                assert(definitions[i].name != definitions[j].name);
            } else {
                assert(definitions[j].name != definitions[i].name);
            }
        }
    }
    names.unique_seq_to_set();
    assert(names.to_set().subset_of(tools.dom())) by {
        assert forall|one: Seq<char>| names.to_set().contains(one) implies tools.dom().contains(
            one,
        ) by {
            let i = choose|i: int| 0 <= i < names.len() && names[i] == one;
            assert(definitions[i].name == one);
        }
    }
    vstd::set_lib::lemma_subset_equality(names.to_set(), tools.dom());
    assert(names.contains(name));
    let i = choose|i: int| 0 <= i < names.len() && names[i] == name;
    assert(definitions[i].name == name);
}

} // verus!
