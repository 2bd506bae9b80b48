use mcp_client::prompt::{build_system_prompt, FINAL_FORCE_ANSWER, MAX_COMMANDS};

#[test]
fn the_prompt_holds_the_numbers_in_their_places() {
    let p = build_system_prompt(5, 8, 10);
    assert!(p.starts_with("You are an expert software engineer, responsible for providing context \\\nto another engineer"));
    assert!(p.contains("you execute at most 8 commands in a single turn."));
    assert!(p.contains("- You have at most 5 turns to interact with the environment"));
    assert!(p.contains("- DO NOT EVER USE MORE THAN 8 commands in a single turn"));
    assert!(p.contains("Aim to return at most 10 files in your answer."));
    assert!(p.ends_with("relevant files first. If fewer files are relevant, return fewer."));
    assert!(p.contains("[TOOL_CALLS]restricted_exec[ARGS]{{\n  \"command1\": {{\n    \"type\": \"rg\","));
    assert!(p.contains("    \"levels\": 2\n  }}\n}}\n- You have at most"));
    assert!(p.contains("<ANSWER></ANSWER>"));
}

#[test]
fn the_prompt_changes_only_where_the_numbers_stand() {
    let a = build_system_prompt(1, 2, 3);
    let b = build_system_prompt(11, 22, 33);
    assert_eq!(b.len(), a.len() + 4);
    assert_eq!(a.matches(" 2 commands").count(), 2);
    assert_eq!(b.matches(" 22 commands").count(), 2);
    assert_eq!(a.replace("most 1 turns", "most 11 turns").replace(" 2 commands", " 22 commands").replace("most 3 files", "most 33 files"), b);
    assert_eq!(build_system_prompt(0, 0, 0).matches(" 0 ").count(), 4);
    assert!(build_system_prompt(u32::MAX, 1, 1).contains("at most 4294967295 turns"));
}

#[test]
fn the_constants_are_what_the_protocol_needs() {
    assert_eq!(MAX_COMMANDS, 8);
    assert_eq!(
        FINAL_FORCE_ANSWER,
        "You have no turns left. Now you MUST provide your final ANSWER, even if it's not complete."
    );
}

use mcp_client::json::JsonValue;
use mcp_client::prompt::{build_command_schema, get_tool_definitions};

#[test]
fn a_command_schema_offers_the_five_commands() {
    let schema = build_command_schema(3);
    assert_eq!(
        schema.get_str("description"),
        Some("Command 3 to execute. Must be one of: rg, readfile, tree, ls, glob.")
    );
    assert_eq!(schema.get_str("type"), Some("object"));
    let forms = schema.get("oneOf").unwrap().as_array().unwrap();
    let kinds: Vec<&str> = forms
        .iter()
        .map(|f| f.get("properties").unwrap().get("type").unwrap().get_str("const").unwrap())
        .collect();
    assert_eq!(kinds, vec!["rg", "readfile", "tree", "ls", "glob"]);
    assert_eq!(
        forms[0].to_text(),
        "{\"properties\":{\"exclude\":{\"description\":\"File patterns to exclude.\",\"items\":{\"type\":\"string\"},\"type\":\"array\"},\"include\":{\"description\":\"File patterns to include.\",\"items\":{\"type\":\"string\"},\"type\":\"array\"},\"path\":{\"description\":\"The path to search in.\",\"type\":\"string\"},\"pattern\":{\"description\":\"The regex pattern to search for.\",\"type\":\"string\"},\"type\":{\"const\":\"rg\",\"description\":\"Search for patterns in files using ripgrep.\",\"type\":\"string\"}},\"required\":[\"type\",\"pattern\",\"path\"]}"
    );
    assert_eq!(
        forms[4].to_text(),
        "{\"properties\":{\"path\":{\"type\":\"string\"},\"pattern\":{\"type\":\"string\"},\"type\":{\"const\":\"glob\",\"description\":\"Find files matching a glob pattern.\",\"type\":\"string\"},\"type_filter\":{\"enum\":[\"file\",\"directory\",\"all\"],\"type\":\"string\"}},\"required\":[\"type\",\"pattern\",\"path\"]}"
    );
    assert_eq!(
        forms[3].to_text(),
        "{\"properties\":{\"all\":{\"type\":\"boolean\"},\"long_format\":{\"type\":\"boolean\"},\"path\":{\"description\":\"Path to the directory.\",\"type\":\"string\"},\"type\":{\"const\":\"ls\",\"description\":\"List files in a directory.\",\"type\":\"string\"}},\"required\":[\"type\",\"path\"]}"
    );
}

#[test]
fn the_tool_definitions_name_both_tools() {
    let text = get_tool_definitions(2);
    let tools = JsonValue::parse(&text).unwrap();
    let tools = tools.as_array().unwrap();
    assert_eq!(tools.len(), 2);
    let batch = tools[0].get("function").unwrap();
    assert_eq!(tools[0].get_str("type"), Some("function"));
    assert_eq!(batch.get_str("name"), Some("restricted_exec"));
    assert_eq!(
        batch.get_str("description"),
        Some("Execute restricted commands (rg, readfile, tree, ls, glob) in parallel.")
    );
    let parameters = batch.get("parameters").unwrap();
    assert_eq!(parameters.get("required").unwrap().to_text(), "[\"command1\"]");
    let fields = parameters.get("properties").unwrap().as_object().unwrap();
    let keys: Vec<&str> = fields.iter().map(|(k, _)| k.as_str()).collect();
    assert_eq!(keys, vec!["command1", "command2"]);
    assert_eq!(fields[1].1.to_text(), build_command_schema(2).to_text());
    assert_eq!(
        tools[1].to_text(),
        "{\"function\":{\"description\":\"Final answer with relevant files and line ranges.\",\"name\":\"answer\",\"parameters\":{\"properties\":{\"answer\":{\"description\":\"The final answer in XML format.\",\"type\":\"string\"}},\"required\":[\"answer\"],\"type\":\"object\"}},\"type\":\"function\"}"
    );
}

#[test]
fn the_tool_definitions_grow_with_the_number_of_commands() {
    let none = JsonValue::parse(&get_tool_definitions(0)).unwrap();
    let fields = none.as_array().unwrap()[0]
        .get("function")
        .unwrap()
        .get("parameters")
        .unwrap()
        .get("properties")
        .unwrap()
        .as_object()
        .unwrap()
        .len();
    assert_eq!(fields, 0);
    let twelve = JsonValue::parse(&get_tool_definitions(12)).unwrap();
    let fields = twelve.as_array().unwrap()[0]
        .get("function")
        .unwrap()
        .get("parameters")
        .unwrap()
        .get("properties")
        .unwrap()
        .as_object()
        .unwrap()
        .len();
    assert_eq!(fields, 12);
    assert!(get_tool_definitions(8).starts_with("[{\"function\":{\"description\":\"Execute restricted commands"));
}
