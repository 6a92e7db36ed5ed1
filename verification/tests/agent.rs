use agent_rig::json::Value;
use agent_rig::Agent;

#[test]
fn builder_sets_fields() {
    let agent = Agent::builder()
        .name("Test Agent")
        .instructions("Do stuff.")
        .build();

    assert_eq!(agent.name(), "Test Agent");
    assert_eq!(agent.instructions(), "Do stuff.");
}

#[test]
#[should_panic(expected = "requires a name")]
fn builder_panics_without_name() {
    Agent::builder().instructions("Do stuff.").build();
}

#[test]
#[should_panic(expected = "requires instructions")]
fn builder_panics_without_instructions() {
    Agent::builder().name("Test Agent").build();
}

#[test]
fn builder_starts_without_schema_and_tools() {
    let agent = Agent::builder().name("a").instructions("b").build();
    assert!(agent.output_schema().is_none());
    assert!(agent.tool_names().is_empty());
}

#[test]
fn builder_keeps_schema_and_tools_in_order() {
    let schema = Value::singleton("type".to_string(), Value::text("object"));
    let agent = Agent::builder()
        .tool("first")
        .name(String::from("a"))
        .output_schema(schema.clone())
        .tool("second".to_string())
        .instructions("b")
        .build();
    assert_eq!(agent.output_schema(), Some(&schema));
    assert_eq!(agent.tool_names(), ["first".to_string(), "second".to_string()]);
    let copy = agent.clone();
    assert_eq!(copy.name(), "a");
    assert_eq!(copy.tool_names(), agent.tool_names());
}

#[test]
fn builder_keeps_the_last_of_two_names() {
    let agent = Agent::builder().name("a").name("b").instructions("c").build();
    assert_eq!(agent.name(), "b");
}

#[test]
fn builder_knows_when_it_is_complete() {
    assert!(!Agent::builder().is_complete());
    assert!(!Agent::builder().name("a").is_complete());
    assert!(Agent::builder().name("a").instructions("b").is_complete());
}
