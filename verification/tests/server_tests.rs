use mcp_client::json::JsonValue;
use mcp_client::server::{
    dispatch, handle_initialize, handle_request, handle_tools_list, read_tools_call,
    search_response, HostAction, SearchParams,
};

fn parse(t: &str) -> JsonValue {
    JsonValue::parse(t).unwrap()
}

#[test]
fn a_notification_is_never_answered() {
    assert_eq!(dispatch("{\"jsonrpc\":\"2.0\",\"method\":\"notifications/initialized\"}"), HostAction::Ignore);
    assert_eq!(dispatch("{\"jsonrpc\":\"2.0\",\"method\":\"ping\"}"), HostAction::Ignore);
    assert_eq!(dispatch("{\"jsonrpc\":\"2.0\",\"method\":\"tools/call\",\"params\":{\"name\":\"fast_context_search\"}}"), HostAction::Ignore);
    assert_eq!(dispatch("{\"method\":\"unknown\"}"), HostAction::Ignore);
    assert_eq!(handle_request(&parse("{\"method\":\"initialize\"}")), HostAction::Ignore);
}

#[test]
fn what_is_not_json_is_passed_over() {
    assert_eq!(dispatch(""), HostAction::Ignore);
    assert_eq!(dispatch("not json"), HostAction::Ignore);
    assert_eq!(dispatch("{\"id\":1"), HostAction::Ignore);
}

#[test]
fn ping_gets_an_empty_result() {
    assert_eq!(
        dispatch("{\"jsonrpc\":\"2.0\",\"id\":7,\"method\":\"ping\"}"),
        HostAction::Respond("{\"id\":7,\"jsonrpc\":\"2.0\",\"result\":{}}".to_string())
    );
}

#[test]
fn a_null_id_is_an_id() {
    assert_eq!(
        dispatch("{\"id\":null,\"method\":\"ping\"}"),
        HostAction::Respond("{\"id\":null,\"jsonrpc\":\"2.0\",\"result\":{}}".to_string())
    );
}

#[test]
fn an_unknown_method_is_not_found() {
    assert_eq!(
        dispatch("{\"id\":\"a\",\"method\":\"resources/list\"}"),
        HostAction::Respond(
            "{\"error\":{\"code\":-32601,\"message\":\"Method not found: resources/list\"},\"id\":\"a\",\"jsonrpc\":\"2.0\"}"
                .to_string()
        )
    );
    assert_eq!(
        dispatch("{\"id\":1}"),
        HostAction::Respond(
            "{\"error\":{\"code\":-32601,\"message\":\"Method not found: \"},\"id\":1,\"jsonrpc\":\"2.0\"}"
                .to_string()
        )
    );
}

#[test]
fn initialize_names_version_capabilities_and_server() {
    let expected = "{\"id\":1,\"jsonrpc\":\"2.0\",\"result\":{\"capabilities\":{\"tools\":{}},\"protocolVersion\":\"2024-11-05\",\"serverInfo\":{\"name\":\"windsurf-relay-mcp\",\"version\":\"0.1.0\"}}}";
    assert_eq!(handle_initialize(&parse("{\"id\":1}")).to_text(), expected);
    assert_eq!(
        dispatch("{\"id\":1,\"method\":\"initialize\",\"params\":{}}"),
        HostAction::Respond(expected.to_string())
    );
}

#[test]
fn tools_list_describes_the_one_tool() {
    let expected = "{\"id\":2,\"jsonrpc\":\"2.0\",\"result\":{\"tools\":[{\"description\":\"AI-driven semantic code search. Searches a codebase with natural language and returns relevant file paths with line ranges, plus suggested grep keywords.\",\"inputSchema\":{\"properties\":{\"max_results\":{\"default\":10,\"description\":\"Max files to return (1-30, default 10)\",\"maximum\":30,\"minimum\":1,\"type\":\"integer\"},\"max_turns\":{\"default\":5,\"description\":\"Search rounds (1-5, default 5)\",\"maximum\":5,\"minimum\":1,\"type\":\"integer\"},\"project_path\":{\"default\":\"\",\"description\":\"Absolute path to project root. Empty = cwd.\",\"type\":\"string\"},\"query\":{\"description\":\"Natural language search query\",\"type\":\"string\"},\"tree_depth\":{\"default\":3,\"description\":\"Directory tree depth (1-6, default 3)\",\"maximum\":6,\"minimum\":1,\"type\":\"integer\"}},\"required\":[\"query\"],\"type\":\"object\"},\"name\":\"fast_context_search\"}]}}";
    assert_eq!(handle_tools_list(&parse("{\"id\":2}")).to_text(), expected);
    assert_eq!(
        dispatch("{\"id\":2,\"method\":\"tools/list\"}"),
        HostAction::Respond(expected.to_string())
    );
}

#[test]
fn a_call_of_the_tool_starts_a_search() {
    let action = dispatch(
        "{\"id\":3,\"method\":\"tools/call\",\"params\":{\"name\":\"fast_context_search\",\"arguments\":{\"query\":\"find it\",\"project_path\":\"/p\",\"tree_depth\":2,\"max_turns\":4,\"max_results\":7}}}",
    );
    assert_eq!(
        action,
        HostAction::Search(SearchParams {
            id: JsonValue::Unsigned(3),
            query: "find it".to_string(),
            project_path: "/p".to_string(),
            tree_depth: 2,
            max_turns: 4,
            max_results: 7,
        })
    );
}

#[test]
fn missing_arguments_take_their_defaults() {
    let r = read_tools_call(&parse("{\"id\":\"x\",\"params\":{\"name\":\"fast_context_search\"}}"));
    assert_eq!(
        r,
        Ok(SearchParams {
            id: JsonValue::String("x".to_string()),
            query: String::new(),
            project_path: String::new(),
            tree_depth: 3,
            max_turns: 5,
            max_results: 10,
        })
    );
    let r = read_tools_call(&parse(
        "{\"params\":{\"name\":\"fast_context_search\",\"arguments\":{\"query\":5,\"tree_depth\":\"2\",\"max_turns\":-1,\"max_results\":4294967299}}}",
    ))
    .unwrap();
    assert_eq!(r.id, JsonValue::Null);
    assert_eq!(r.query, "");
    assert_eq!(r.tree_depth, 3);
    assert_eq!(r.max_turns, 5);
    assert_eq!(r.max_results, 3);
}

#[test]
fn an_unknown_tool_is_refused_as_invalid_parameters() {
    assert_eq!(
        dispatch("{\"id\":4,\"method\":\"tools/call\",\"params\":{\"name\":\"other\"}}"),
        HostAction::Respond(
            "{\"error\":{\"code\":-32602,\"message\":\"Unknown tool: other\"},\"id\":4,\"jsonrpc\":\"2.0\"}"
                .to_string()
        )
    );
    assert_eq!(
        dispatch("{\"id\":4,\"method\":\"tools/call\"}"),
        HostAction::Respond(
            "{\"error\":{\"code\":-32602,\"message\":\"Unknown tool: \"},\"id\":4,\"jsonrpc\":\"2.0\"}"
                .to_string()
        )
    );
}

#[test]
fn the_outcome_of_a_search_goes_into_a_result() {
    assert_eq!(
        search_response(JsonValue::Unsigned(5), &Ok("found".to_string())).to_text(),
        "{\"id\":5,\"jsonrpc\":\"2.0\",\"result\":{\"content\":[{\"text\":\"found\",\"type\":\"text\"}]}}"
    );
    assert_eq!(
        search_response(JsonValue::Unsigned(5), &Err("No jwt".to_string())).to_text(),
        "{\"id\":5,\"jsonrpc\":\"2.0\",\"result\":{\"content\":[{\"text\":\"Error: No jwt\",\"type\":\"text\"}],\"isError\":true}}"
    );
}
