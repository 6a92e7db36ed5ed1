//! Writing Gemini requests.
use crate::json::{Value, ValueView};
use crate::model::{
    Message, MessageContent, MessageContentView, MessageView, ModelRequest, ModelRequestView,
    Role as AgentRole, ToolCall, ToolCallView,
};
use crate::models::gemini::schema::{can_normalise, normalised, try_normalise};
use crate::models::gemini::types::{
    default_config, Content, ContentView, FunctionDeclaration, FunctionDeclarationView,
    FunctionResponse, FunctionResponseView, GenerateContentRequest, GenerateContentRequestView,
    GenerationConfig, GenerationConfigView, Part, PartData, PartDataView, PartView, Role, Tools,
    ToolsView,
};
use crate::tools::{ToolDefinition, ToolDefinitionView};
use crate::views::{clone_option, option_view, seq_view};
use vstd::prelude::*;

verus! {

/// Whose turn a message is, in Gemini's terms.
pub open spec fn gemini_role(role: AgentRole) -> Role {
    match role {
        AgentRole::User => Role::User,
        AgentRole::Assistant => Role::Model,
    }
}

/// A part with nothing but a text.
pub open spec fn text_part(text: Seq<char>) -> PartView {
    PartView { data: PartDataView::Text(text), thought: None, thought_signature: None }
}

/// The thought signature that the metadata of a tool call keeps, if it keeps one.
pub open spec fn kept_signature(metadata: Option<ValueView>) -> Option<Seq<char>> {
    match metadata {
        Some(ValueView::Object(fields)) => if fields.dom().contains("thought_signature"@) {
            match fields["thought_signature"@] {
                ValueView::String(signature) => Some(signature),
                _ => None,
            }
        } else {
            None
        },
        _ => None,
    }
}

/// A tool call, as it is played back to the model.
pub open spec fn call_part(call: ToolCallView) -> PartView {
    PartView {
        data: PartDataView::FunctionCall {
            id: Some(call.id),
            name: call.name,
            args: Some(call.args),
        },
        thought: None,
        thought_signature: kept_signature(call.provider_metadata),
    }
}

/// A tool result as an object: an object as it is, anything else under `output`.
pub open spec fn object_response(result: ValueView) -> ValueView {
    match result {
        ValueView::Object(_) => result,
        other => ValueView::Object(map!["output"@ => other]),
    }
}

/// The result of a tool call, as it is handed to the model.
pub open spec fn result_part(call: ToolCallView, result: ValueView) -> PartView {
    PartView {
        data: PartDataView::FunctionResponse(
            FunctionResponseView {
                id: Some(call.id),
                name: call.name,
                response: object_response(result),
            },
        ),
        thought: None,
        thought_signature: kept_signature(call.provider_metadata),
    }
}

/// The parts for a list of tool calls.
pub open spec fn call_parts(calls: Seq<ToolCallView>) -> Seq<PartView> {
    Seq::new(calls.len(), |i: int| call_part(calls[i]))
}

/// A message as a turn of a Gemini conversation. Tool calls are the model's, tool
/// results the user's.
pub open spec fn message_content(message: MessageView) -> ContentView {
    match message.content {
        MessageContentView::Text(text) => ContentView {
            role: Some(gemini_role(message.role)),
            parts: Some(seq![text_part(text)]),
        },
        MessageContentView::ToolCalls(calls) => ContentView {
            role: Some(Role::Model),
            parts: Some(call_parts(calls)),
        },
        MessageContentView::ToolResult { tool_call, result } => ContentView {
            role: Some(Role::User),
            parts: Some(seq![result_part(tool_call, result)]),
        },
    }
}

/// A conversation, message by message.
pub open spec fn message_contents(messages: Seq<MessageView>) -> Seq<ContentView> {
    Seq::new(messages.len(), |i: int| message_content(messages[i]))
}

/// A tool as it is offered to the model.
pub open spec fn declaration(definition: ToolDefinitionView) -> FunctionDeclarationView {
    FunctionDeclarationView {
        name: definition.name,
        description: definition.description,
        parameters: None,
        parameters_json_schema: Some(definition.parameters),
        response: None,
        response_json_schema: None,
    }
}

/// The tools that are offered to the model; nothing where there are none.
pub open spec fn offered_tools(tools: Seq<ToolDefinitionView>) -> Option<Seq<ToolsView>> {
    if tools.len() == 0 {
        None
    } else {
        Some(
            seq![
                ToolsView {
                    function_declarations: Some(Seq::new(tools.len(), |i: int| declaration(tools[i]))),
                },
            ],
        )
    }
}

/// The settings that are in force.
///
/// A schema in the request takes the place of the model's settings: the answer is
/// JSON after that schema, and of the model's settings only the thinking stays.
pub open spec fn effective_config(
    config: Option<GenerationConfigView>,
    output_schema: Option<ValueView>,
) -> Option<GenerationConfigView> {
    match output_schema {
        Some(schema) => Some(
            GenerationConfigView {
                response_mime_type: Some("application/json"@),
                response_schema: Some(normalised(schema)),
                thinking_config: match config {
                    Some(config) => config.thinking_config,
                    None => None,
                },
                ..default_config()
            },
        ),
        None => config,
    }
}

/// The Gemini request for a request under the model's settings.
pub open spec fn gemini_request(
    config: Option<GenerationConfigView>,
    request: ModelRequestView,
) -> GenerateContentRequestView {
    GenerateContentRequestView {
        contents: message_contents(request.messages),
        system_instruction: match request.system {
            Some(system) => Some(ContentView { role: None, parts: Some(seq![text_part(system)]) }),
            None => None,
        },
        tools: offered_tools(request.tools),
        generation_config: effective_config(config, request.output_schema),
    }
}

/// Whether the references in the request's schema, if it has one, lead to an end.
pub open spec fn has_finite_schema(request: ModelRequestView) -> bool {
    request.output_schema matches Some(schema) ==> can_normalise(schema)
}

/// Makes a tool result an object, as Gemini requires: an object passes unchanged,
/// anything else is put under `output`.
pub fn ensure_object_response(result: Value) -> (res: Value)
    ensures
        res@ == object_response(result@),
{
    match result {
        Value::Object(object) => Value::Object(object),
        other => Value::singleton("output".to_owned(), other),
    }
}

/// Reads back the thought signature from a tool call's metadata.
fn read_signature(metadata: &Option<Value>) -> (res: Option<String>)
    ensures
        option_view(res) == kept_signature(option_view(*metadata)),
{
    match metadata {
        Some(metadata) => match metadata.get("thought_signature") {
            Some(Value::String(signature)) => Some(signature.clone()),
            _ => None,
        },
        None => None,
    }
}

/// A content with a single text.
fn text_content(role: Option<Role>, text: String) -> (res: Content)
    ensures
        res@ == (ContentView { role, parts: Some(seq![text_part(text@)]) }),
{
    let mut parts: Vec<Part> = Vec::new();
    parts.push(Part { data: PartData::Text(text), thought: None, thought_signature: None });
    assert(seq_view(parts@) =~= seq![text_part(text@)]);
    Content { role, parts: Some(parts) }
}

/// Writes one message.
fn write_message(message: &Message) -> (res: Content)
    ensures
        res@ == message_content(message@),
{
    match &message.content {
        MessageContent::Text(text) => {
            let role = match message.role {
                AgentRole::User => Role::User,
                AgentRole::Assistant => Role::Model,
            };
            text_content(Some(role), text.clone())
        },
        MessageContent::ToolCalls(calls) => {
            let mut parts: Vec<Part> = Vec::new();
            let mut i: usize = 0;
            while i < calls.len()
                invariant
                    i <= calls@.len(),
                    parts@.len() == i,
                    forall|j: int|
                        0 <= j < i ==> (#[trigger] parts@[j])@ == call_part(calls@[j]@),
                decreases calls@.len() - i,
            {
                let call: &ToolCall = &calls[i];
                parts.push(
                    Part {
                        data: PartData::FunctionCall {
                            id: Some(call.id.clone()),
                            name: call.name.clone(),
                            args: Some(call.args.clone()),
                        },
                        thought: None,
                        thought_signature: read_signature(&call.provider_metadata),
                    },
                );
                i = i + 1;
            }
            assert(seq_view(parts@) =~= call_parts(seq_view(calls@)));
            Content { role: Some(Role::Model), parts: Some(parts) }
        },
        MessageContent::ToolResult { tool_call, result } => {
            let mut parts: Vec<Part> = Vec::new();
            parts.push(
                Part {
                    data: PartData::FunctionResponse(
                        FunctionResponse {
                            id: Some(tool_call.id.clone()),
                            name: tool_call.name.clone(),
                            response: ensure_object_response(result.clone()),
                        },
                    ),
                    thought: None,
                    thought_signature: read_signature(&tool_call.provider_metadata),
                },
            );
            assert(seq_view(parts@) =~= seq![result_part(tool_call@, result@)]);
            Content { role: Some(Role::User), parts: Some(parts) }
        },
    }
}

impl From<&ToolDefinition> for FunctionDeclaration {
    /// Offers a tool to the model.
    fn from(definition: &ToolDefinition) -> (res: FunctionDeclaration)
        ensures
            res@ == declaration(definition@),
    {
        FunctionDeclaration {
            name: definition.name.clone(),
            description: definition.description.clone(),
            parameters: None,
            parameters_json_schema: Some(definition.parameters.clone()),
            response: None,
            response_json_schema: None,
        }
    }
}

impl vstd::std_specs::convert::FromSpecImpl<&ToolDefinition> for FunctionDeclaration {
    open spec fn obeys_from_spec() -> bool {
        false
    }

    open spec fn from_spec(definition: &ToolDefinition) -> FunctionDeclaration {
        arbitrary()
    }
}

/// Offers all the tools of a request.
fn write_tools(tools: &Vec<ToolDefinition>) -> (res: Option<Vec<Tools>>)
    ensures
        match res {
            Some(offered) => offered_tools(seq_view(tools@)) == Some(seq_view(offered@)),
            None => offered_tools(seq_view(tools@)) is None,
        },
{
    if tools.len() == 0 {
        return None;
    }
    let mut declarations: Vec<FunctionDeclaration> = Vec::new();
    let mut i: usize = 0;
    while i < tools.len()
        invariant
            i <= tools@.len(),
            declarations@.len() == i,
            forall|j: int|
                0 <= j < i ==> (#[trigger] declarations@[j])@ == declaration(tools@[j]@),
        decreases tools@.len() - i,
    {
        declarations.push(FunctionDeclaration::from(&tools[i]));
        i = i + 1;
    }
    let ghost models = seq_view(tools@);
    assert(seq_view(declarations@) =~= Seq::new(models.len(), |i: int| declaration(models[i])));
    let mut offered: Vec<Tools> = Vec::new();
    offered.push(Tools { function_declarations: Some(declarations) });
    assert(seq_view(offered@) =~= offered_tools(models)->0);
    Some(offered)
}

/// Works out the settings that are in force, the schema being self-contained
/// already.
fn write_config(config: &Option<GenerationConfig>, schema: Option<Value>) -> (res: Option<
    GenerationConfig,
>)
    ensures
        schema matches Some(schema) ==> option_view(res) == Some(
            GenerationConfigView {
                response_mime_type: Some("application/json"@),
                response_schema: Some(schema@),
                thinking_config: match option_view(*config) {
                    Some(config) => config.thinking_config,
                    None => None,
                },
                ..default_config()
            },
        ),
        schema is None ==> option_view(res) == option_view(*config),
{
    match schema {
        Some(schema) => {
            let mut fresh = GenerationConfig::default();
            fresh.response_mime_type = Some("application/json".to_owned());
            fresh.response_schema = Some(schema);
            if let Some(config) = config {
                fresh.thinking_config = config.thinking_config;
            }
            Some(fresh)
        },
        None => clone_option(config),
    }
}

/// Writes a request; `None` where the references in its schema run in a circle.
pub fn try_build_request(config: &Option<GenerationConfig>, request: ModelRequest) -> (res: Option<
    GenerateContentRequest,
>)
    ensures
        res is Some <==> has_finite_schema(request@),
        res matches Some(written) ==> written@ == gemini_request(option_view(*config), request@),
        res matches Some(written) ==> (written@.tools is None <==> request@.tools.len() == 0),
        res matches Some(written) ==> (written@.tools matches Some(offered) ==> {
            &&& offered.len() == 1
            &&& offered[0].function_declarations is Some
            &&& offered[0].function_declarations->0.len() == request@.tools.len()
            &&& forall|i: int|
                0 <= i < request@.tools.len() ==> {
                    let tool = #[trigger] request@.tools[i];
                    let declared = offered[0].function_declarations->0[i];
                    &&& declared.name == tool.name
                    &&& declared.description == tool.description
                    &&& declared.parameters_json_schema == Some(tool.parameters)
                }
        }),
{
    let ghost model = request@;
    let mut contents: Vec<Content> = Vec::new();
    let messages: &[std::sync::Arc<Message>] = &request.messages;
    let mut i: usize = 0;
    while i < messages.len()
        invariant
            i <= messages@.len(),
            contents@.len() == i,
            forall|j: int|
                0 <= j < i ==> (#[trigger] contents@[j])@ == message_content(messages@[j]@),
        decreases messages@.len() - i,
    {
        let message: &Message = &messages[i];
        contents.push(write_message(message));
        i = i + 1;
    }
    assert(seq_view(contents@) =~= message_contents(model.messages)) by {
        assert(seq_view(messages@) == model.messages);
        assert forall|j: int| 0 <= j < messages@.len() implies messages@[j]@ == #[trigger] model.messages[j] by {
            assert(seq_view(messages@)[j] == messages@[j]@);
        }
    }
    let system_instruction = match request.system {
        Some(system) => Some(text_content(None, system)),
        None => None,
    };
    let tools = write_tools(&request.tools);
    let schema = match request.output_schema {
        Some(schema) => match try_normalise(schema) {
            Some(schema) => Some(schema),
            None => {
                return None;
            },
        },
        None => None,
    };
    let generation_config = write_config(config, schema);
    Some(GenerateContentRequest { contents, system_instruction, tools, generation_config })
}

} // verus!
