//! The host-facing protocol: what each request of the host is answered with,
//! which requests are not answered at all, and which start a search.

use crate::json::{
    json_parse, json_text, no_members, push_member, push_number, push_text, Json, JsonValue,
};
use crate::text::{append_str, from_chars, same_text};
use vstd::prelude::*;

verus! {

/// The name of the one tool that the server offers.
pub const TOOL_NAME: &'static str = "fast_context_search";

/// What the tool is said to do.
pub const TOOL_DESCRIPTION: &'static str =
    "AI-driven semantic code search. Searches a codebase with natural language and returns relevant file paths with line ranges, plus suggested grep keywords.";

/// The member of a value, or null where there is none.
pub open spec fn member_or_null(value: Json, key: Seq<char>) -> Json {
    match value.member(key) {
        Some(found) => found,
        None => Json::Null,
    }
}

/// The member of a value, or an empty object where there is none.
pub open spec fn member_or_empty(value: Json, key: Seq<char>) -> Json {
    match value.member(key) {
        Some(found) => found,
        None => Json::Object(Seq::empty()),
    }
}

/// A response: the protocol's version, the id of the request, and one more
/// member, the result or the error.
pub open spec fn envelope(id: Json, key: Seq<char>, body: Json) -> Json {
    Json::Object(seq![("jsonrpc"@, Json::String("2.0"@)), ("id"@, id), (key, body)])
}

/// The body of an error: its code, as decimal text, and its message.
pub open spec fn error_body(code: Seq<char>, message: Seq<char>) -> Json {
    Json::Object(seq![("code"@, Json::Decimal(code)), ("message"@, Json::String(message))])
}

/// Builds a response.
fn respond(id: JsonValue, key: &str, body: JsonValue) -> (r: JsonValue)
    ensures
        r@ == envelope(id@, key@, body@),
{
    let mut members = no_members();
    push_text(&mut members, "jsonrpc", "2.0");
    push_member(&mut members, "id", id);
    push_member(&mut members, key, body);
    let r = JsonValue::object(members);
    proof {
        assert(r@->Object_0 =~= envelope(id@, key@, body@)->Object_0);
    }
    r
}

/// Builds the body of an error.
fn error_value(code: &str, message: &str) -> (r: JsonValue)
    ensures
        r@ == error_body(code@, message@),
{
    let mut members = no_members();
    push_member(&mut members, "code", JsonValue::Decimal(code.to_owned()));
    push_text(&mut members, "message", message);
    let r = JsonValue::object(members);
    proof {
        assert(r@->Object_0 =~= error_body(code@, message@)->Object_0);
    }
    r
}

/// The id of a request, or null.
fn id_of(msg: &JsonValue) -> (id: JsonValue)
    ensures
        id@ == member_or_null(msg@, "id"@),
{
    match msg.get("id") {
        Some(id) => id.duplicate(),
        None => JsonValue::Null,
    }
}

/// An object without members.
fn empty_object() -> (r: JsonValue)
    ensures
        r@ == Json::Object(Seq::empty()),
{
    JsonValue::object(no_members())
}

/// What the server says of itself when the host opens the connection.
pub open spec fn initialize_result() -> Json {
    Json::Object(
        seq![
            ("protocolVersion"@, Json::String("2024-11-05"@)),
            ("capabilities"@, Json::Object(seq![("tools"@, Json::Object(Seq::empty()))])),
            (
                "serverInfo"@,
                Json::Object(
                    seq![
                        ("name"@, Json::String("windsurf-relay-mcp"@)),
                        ("version"@, Json::String("0.1.0"@)),
                    ],
                ),
            ),
        ],
    )
}

/// Answers `initialize`: the protocol version, the capabilities and the
/// identity of the server.
pub fn handle_initialize(msg: &JsonValue) -> (r: JsonValue)
    ensures
        r@ == envelope(member_or_null(msg@, "id"@), "result"@, initialize_result()),
{
    let mut capabilities = no_members();
    push_member(&mut capabilities, "tools", empty_object());
    let capabilities = JsonValue::object(capabilities);
    let mut info = no_members();
    push_text(&mut info, "name", "windsurf-relay-mcp");
    push_text(&mut info, "version", "0.1.0");
    let info = JsonValue::object(info);
    let mut result = no_members();
    push_text(&mut result, "protocolVersion", "2024-11-05");
    push_member(&mut result, "capabilities", capabilities);
    push_member(&mut result, "serverInfo", info);
    let result = JsonValue::object(result);
    proof {
        assert(capabilities@->Object_0 =~= seq![("tools"@, Json::Object(Seq::empty()))]);
        assert(info@->Object_0 =~= seq![
            ("name"@, Json::String("windsurf-relay-mcp"@)),
            ("version"@, Json::String("0.1.0"@)),
        ]);
        assert(result@->Object_0 =~= initialize_result()->Object_0);
    }
    respond(id_of(msg), "result", result)
}

/// The schema of an argument that is a text.
pub open spec fn text_argument(description: Seq<char>) -> Json {
    Json::Object(seq![("type"@, Json::String("string"@)), ("description"@, Json::String(description))])
}

/// The schema of an argument that is a whole number within bounds, with a
/// default.
pub open spec fn number_argument(description: Seq<char>, default: u64, least: u64, most: u64) -> Json {
    Json::Object(
        seq![
            ("type"@, Json::String("integer"@)),
            ("description"@, Json::String(description)),
            ("default"@, Json::Unsigned(default)),
            ("minimum"@, Json::Unsigned(least)),
            ("maximum"@, Json::Unsigned(most)),
        ],
    )
}

/// The arguments of the search tool: the query, the project's path, the
/// depth of the directory tree, the number of turns, the number of results.
pub open spec fn tool_arguments() -> Json {
    Json::Object(
        seq![
            ("query"@, text_argument("Natural language search query"@)),
            (
                "project_path"@,
                Json::Object(
                    seq![
                        ("type"@, Json::String("string"@)),
                        (
                            "description"@,
                            Json::String("Absolute path to project root. Empty = cwd."@),
                        ),
                        ("default"@, Json::String(Seq::empty())),
                    ],
                ),
            ),
            ("tree_depth"@, number_argument("Directory tree depth (1-6, default 3)"@, 3, 1, 6)),
            ("max_turns"@, number_argument("Search rounds (1-5, default 5)"@, 5, 1, 5)),
            (
                "max_results"@,
                number_argument("Max files to return (1-30, default 10)"@, 10, 1, 30),
            ),
        ],
    )
}

/// The descriptor of the search tool: its name, what it does, and the schema
/// of its input, of which only the query is required.
pub open spec fn tool_descriptor() -> Json {
    Json::Object(
        seq![
            ("name"@, Json::String(TOOL_NAME@)),
            ("description"@, Json::String(TOOL_DESCRIPTION@)),
            (
                "inputSchema"@,
                Json::Object(
                    seq![
                        ("type"@, Json::String("object"@)),
                        ("properties"@, tool_arguments()),
                        ("required"@, Json::Array(seq![Json::String("query"@)])),
                    ],
                ),
            ),
        ],
    )
}

/// Builds the schema of an argument that is a whole number.
fn number_schema(description: &str, default: u64, least: u64, most: u64) -> (r: JsonValue)
    ensures
        r@ == number_argument(description@, default, least, most),
{
    let mut members = no_members();
    push_text(&mut members, "type", "integer");
    push_text(&mut members, "description", description);
    push_number(&mut members, "default", default);
    push_number(&mut members, "minimum", least);
    push_number(&mut members, "maximum", most);
    let r = JsonValue::object(members);
    proof {
        assert(r@->Object_0 =~= number_argument(description@, default, least, most)->Object_0);
    }
    r
}

/// Builds the schema of the tool's arguments.
fn arguments_schema() -> (r: JsonValue)
    ensures
        r@ == tool_arguments(),
{
    let mut query = no_members();
    push_text(&mut query, "type", "string");
    push_text(&mut query, "description", "Natural language search query");
    let query = JsonValue::object(query);
    let mut path = no_members();
    push_text(&mut path, "type", "string");
    push_text(&mut path, "description", "Absolute path to project root. Empty = cwd.");
    push_member(&mut path, "default", JsonValue::String(String::new()));
    let path = JsonValue::object(path);
    let mut members = no_members();
    push_member(&mut members, "query", query);
    push_member(&mut members, "project_path", path);
    push_member(
        &mut members,
        "tree_depth",
        number_schema("Directory tree depth (1-6, default 3)", 3, 1, 6),
    );
    push_member(&mut members, "max_turns", number_schema("Search rounds (1-5, default 5)", 5, 1, 5));
    push_member(
        &mut members,
        "max_results",
        number_schema("Max files to return (1-30, default 10)", 10, 1, 30),
    );
    let r = JsonValue::object(members);
    proof {
        assert(query@->Object_0 =~= text_argument("Natural language search query"@)->Object_0);
        assert(path@->Object_0 =~= seq![
            ("type"@, Json::String("string"@)),
            ("description"@, Json::String("Absolute path to project root. Empty = cwd."@)),
            ("default"@, Json::String(Seq::empty())),
        ]);
        assert(r@->Object_0 =~= tool_arguments()->Object_0);
    }
    r
}

/// Builds the descriptor of the search tool.
fn descriptor() -> (r: JsonValue)
    ensures
        r@ == tool_descriptor(),
{
    let mut required: Vec<JsonValue> = Vec::new();
    required.push(JsonValue::string("query"));
    let required = JsonValue::array(required);
    let mut schema = no_members();
    push_text(&mut schema, "type", "object");
    push_member(&mut schema, "properties", arguments_schema());
    push_member(&mut schema, "required", required);
    let schema = JsonValue::object(schema);
    let mut members = no_members();
    push_text(&mut members, "name", TOOL_NAME);
    push_text(&mut members, "description", TOOL_DESCRIPTION);
    push_member(&mut members, "inputSchema", schema);
    let r = JsonValue::object(members);
    proof {
        assert(required@->Array_0 =~= seq![Json::String("query"@)]);
        assert(schema@->Object_0 =~= seq![
            ("type"@, Json::String("object"@)),
            ("properties"@, tool_arguments()),
            ("required"@, Json::Array(seq![Json::String("query"@)])),
        ]);
        assert(r@->Object_0 =~= tool_descriptor()->Object_0);
    }
    r
}

/// What `tools/list` is answered with: the one tool.
pub open spec fn tools_list_result() -> Json {
    Json::Object(seq![("tools"@, Json::Array(seq![tool_descriptor()]))])
}

/// Answers `tools/list`: the descriptor of the one tool that the server
/// offers.
pub fn handle_tools_list(msg: &JsonValue) -> (r: JsonValue)
    ensures
        r@ == envelope(member_or_null(msg@, "id"@), "result"@, tools_list_result()),
{
    let mut tools: Vec<JsonValue> = Vec::new();
    tools.push(descriptor());
    let tools = JsonValue::array(tools);
    let mut result = no_members();
    push_member(&mut result, "tools", tools);
    let result = JsonValue::object(result);
    proof {
        assert(tools@->Array_0 =~= seq![tool_descriptor()]);
        assert(result@->Object_0 =~= tools_list_result()->Object_0);
    }
    respond(id_of(msg), "result", result)
}

/// What a call of the search tool asks for.
#[derive(Debug, PartialEq)]
pub struct SearchParams {
    /// The id of the request, for the response.
    pub id: JsonValue,
    pub query: String,
    /// The project's root; empty for the directory that the server runs in.
    pub project_path: String,
    pub tree_depth: u32,
    pub max_turns: u32,
    pub max_results: u32,
}

/// What the parameters of a search stand for.
pub struct SearchParamsView {
    pub id: Json,
    pub query: Seq<char>,
    pub project_path: Seq<char>,
    pub tree_depth: u32,
    pub max_turns: u32,
    pub max_results: u32,
}

impl View for SearchParams {
    type V = SearchParamsView;

    open spec fn view(&self) -> SearchParamsView {
        SearchParamsView {
            id: self.id@,
            query: self.query@,
            project_path: self.project_path@,
            tree_depth: self.tree_depth,
            max_turns: self.max_turns,
            max_results: self.max_results,
        }
    }
}

/// The text of a member, or nothing.
pub open spec fn text_member(value: Json, key: Seq<char>) -> Seq<char> {
    match value.member_text(key) {
        Some(text) => text,
        None => Seq::empty(),
    }
}

/// The number of a member as 32 bits, or a default where the member is
/// missing or is no unsigned number. A number that takes more than 32 bits is
/// cut to its low 32 bits.
pub open spec fn count_member(value: Json, key: Seq<char>, default: u32) -> u32 {
    match value.member(key) {
        Some(n) => match n.unsigned() {
            Some(n) => (n % 0x1_0000_0000) as u32,
            None => default,
        },
        None => default,
    }
}

/// What a `tools/call` request asks for: a search with its parameters, or,
/// where it names another tool, the response that refuses it as invalid
/// parameters.
pub open spec fn tools_call_of(msg: Json) -> Result<SearchParamsView, Json> {
    let params = member_or_empty(msg, "params"@);
    let args = member_or_empty(params, "arguments"@);
    let name = text_member(params, "name"@);
    if name == TOOL_NAME@ {
        Ok(
            SearchParamsView {
                id: member_or_null(msg, "id"@),
                query: text_member(args, "query"@),
                project_path: text_member(args, "project_path"@),
                tree_depth: count_member(args, "tree_depth"@, 3),
                max_turns: count_member(args, "max_turns"@, 5),
                max_results: count_member(args, "max_results"@, 10),
            },
        )
    } else {
        Err(
            envelope(
                member_or_null(msg, "id"@),
                "error"@,
                error_body("-32602"@, "Unknown tool: "@ + name),
            ),
        )
    }
}

/// The text of a member, or nothing.
fn get_text(value: Option<&JsonValue>, key: &str) -> (r: String)
    ensures
        r@ == text_member(
            match value {
                Some(v) => v@,
                None => Json::Object(Seq::empty()),
            },
            key@,
        ),
{
    match value {
        Some(v) => match v.get_str(key) {
            Some(text) => text.to_owned(),
            None => String::new(),
        },
        None => String::new(),
    }
}

/// The number of a member as 32 bits, or a default.
fn get_count(value: Option<&JsonValue>, key: &str, default: u32) -> (r: u32)
    ensures
        r == count_member(
            match value {
                Some(v) => v@,
                None => Json::Object(Seq::empty()),
            },
            key@,
            default,
        ),
{
    match value {
        Some(v) => match v.get(key) {
            Some(n) => match n.as_u64() {
                Some(n) => (n % 0x1_0000_0000) as u32,
                None => default,
            },
            None => default,
        },
        None => default,
    }
}

/// Reads a `tools/call` request: the parameters of the search that it asks
/// for, or the response that refuses a tool that the server does not offer.
pub fn read_tools_call(msg: &JsonValue) -> (r: Result<SearchParams, JsonValue>)
    ensures
        match r {
            Ok(params) => tools_call_of(msg@) == Ok::<SearchParamsView, Json>(params@),
            Err(response) => tools_call_of(msg@) == Err::<SearchParamsView, Json>(response@),
        },
{
    let params = msg.get("params");
    let args = match params {
        Some(p) => p.get("arguments"),
        None => None,
    };
    let name = get_text(params, "name");
    if same_text(name.as_str(), TOOL_NAME) {
        Ok(
            SearchParams {
                id: id_of(msg),
                query: get_text(args, "query"),
                project_path: get_text(args, "project_path"),
                tree_depth: get_count(args, "tree_depth", 3),
                max_turns: get_count(args, "max_turns", 5),
                max_results: get_count(args, "max_results", 10),
            },
        )
    } else {
        let mut message: Vec<char> = Vec::new();
        append_str(&mut message, "Unknown tool: ");
        append_str(&mut message, name.as_str());
        let message = from_chars(message.as_slice());
        Err(respond(id_of(msg), "error", error_value("-32602", message.as_str())))
    }
}

/// The one piece of content of a search's result: a text.
pub open spec fn text_content(text: Seq<char>) -> Json {
    Json::Array(
        seq![Json::Object(seq![("type"@, Json::String("text"@)), ("text"@, Json::String(text))])],
    )
}

/// What the host is told of a search: the text of its answer, or, for a
/// search that failed, the reason, marked as an error.
pub open spec fn search_result(outcome: Result<Seq<char>, Seq<char>>) -> Json {
    match outcome {
        Ok(text) => Json::Object(seq![("content"@, text_content(text))]),
        Err(reason) => Json::Object(
            seq![("content"@, text_content("Error: "@ + reason)), ("isError"@, Json::Bool(true))],
        ),
    }
}

/// Builds the content of a search's result.
fn content_of(text: &str) -> (r: JsonValue)
    ensures
        r@ == text_content(text@),
{
    let mut piece = no_members();
    push_text(&mut piece, "type", "text");
    push_text(&mut piece, "text", text);
    let piece = JsonValue::object(piece);
    let mut list: Vec<JsonValue> = Vec::new();
    list.push(piece);
    let r = JsonValue::array(list);
    proof {
        assert(piece@->Object_0 =~= seq![
            ("type"@, Json::String("text"@)),
            ("text"@, Json::String(text@)),
        ]);
        assert(r@->Array_0 =~= text_content(text@)->Array_0);
    }
    r
}

/// Builds the response to a `tools/call` request from the outcome of its
/// search. A failed search is reported inside a result, not as an error of
/// the protocol.
pub fn search_response(id: JsonValue, outcome: &Result<String, String>) -> (r: JsonValue)
    ensures
        r@ == envelope(
            id@,
            "result"@,
            search_result(
                match outcome {
                    Ok(text) => Ok::<Seq<char>, Seq<char>>(text@),
                    Err(reason) => Err::<Seq<char>, Seq<char>>(reason@),
                },
            ),
        ),
{
    let mut result = no_members();
    match outcome {
        Ok(text) => {
            push_member(&mut result, "content", content_of(text.as_str()));
        },
        Err(reason) => {
            let mut message: Vec<char> = Vec::new();
            append_str(&mut message, "Error: ");
            append_str(&mut message, reason.as_str());
            let message = from_chars(message.as_slice());
            push_member(&mut result, "content", content_of(message.as_str()));
            push_member(&mut result, "isError", JsonValue::Bool(true));
        },
    }
    let result = JsonValue::object(result);
    proof {
        match outcome {
            Ok(text) => {
                assert(result@->Object_0 =~= seq![("content"@, text_content(text@))]);
            },
            Err(reason) => {
                assert(result@->Object_0 =~= seq![
                    ("content"@, text_content("Error: "@ + reason@)),
                    ("isError"@, Json::Bool(true)),
                ]);
            },
        }
    }
    respond(id, "result", result)
}

/// What the server does with a message of the host.
#[derive(Debug, PartialEq)]
pub enum HostAction {
    /// Nothing: the message is no request that is to be answered.
    Ignore,
    /// Send this response.
    Respond(String),
    /// Run this search, and answer with `search_response`.
    Search(SearchParams),
}

/// What an action stands for.
pub enum HostActionView {
    Ignore,
    Respond(Seq<char>),
    Search(SearchParamsView),
}

impl View for HostAction {
    type V = HostActionView;

    open spec fn view(&self) -> HostActionView {
        match self {
            HostAction::Ignore => HostActionView::Ignore,
            HostAction::Respond(text) => HostActionView::Respond(text@),
            HostAction::Search(params) => HostActionView::Search(params@),
        }
    }
}

/// What a request is answered with. A request without an id is a
/// notification and is never answered. `initialize`, `tools/list` and `ping`
/// have their fixed results; `tools/call` starts a search, or is refused where
/// it names an unknown tool; any other method is not found.
pub open spec fn action_for(request: Json) -> HostActionView {
    let method = text_member(request, "method"@);
    match request.member("id"@) {
        None => HostActionView::Ignore,
        Some(id) => if method == "initialize"@ {
            HostActionView::Respond(json_text(envelope(id, "result"@, initialize_result())))
        } else if method == "tools/list"@ {
            HostActionView::Respond(json_text(envelope(id, "result"@, tools_list_result())))
        } else if method == "tools/call"@ {
            match tools_call_of(request) {
                Ok(params) => HostActionView::Search(params),
                Err(response) => HostActionView::Respond(json_text(response)),
            }
        } else if method == "ping"@ {
            HostActionView::Respond(json_text(envelope(id, "result"@, Json::Object(Seq::empty()))))
        } else {
            HostActionView::Respond(
                json_text(
                    envelope(id, "error"@, error_body("-32601"@, "Method not found: "@ + method)),
                ),
            )
        },
    }
}

/// A request without an id is a notification: whatever its method, nothing
/// is sent for it.
pub proof fn lemma_notification_is_ignored(request: Json)
    requires
        request.member("id"@) is None,
    ensures
        action_for(request) is Ignore,
{
}

/// What a message of the host is answered with. An empty message and a
/// message that is not JSON are passed over.
pub open spec fn action_of(message: Seq<char>) -> HostActionView {
    if message.len() == 0 {
        HostActionView::Ignore
    } else {
        match json_parse(message) {
            Some(request) => action_for(request),
            None => HostActionView::Ignore,
        }
    }
}

/// Decides what to do with a request of the host.
pub fn handle_request(request: &JsonValue) -> (action: HostAction)
    ensures
        action@ == action_for(request@),
        request@.member("id"@) is None ==> action is Ignore,
{
    let method = get_text(Some(request), "method");
    if request.get("id").is_none() {
        return HostAction::Ignore;
    }
    if same_text(method.as_str(), "initialize") {
        HostAction::Respond(handle_initialize(request).to_text())
    } else if same_text(method.as_str(), "tools/list") {
        HostAction::Respond(handle_tools_list(request).to_text())
    } else if same_text(method.as_str(), "tools/call") {
        match read_tools_call(request) {
            Ok(params) => HostAction::Search(params),
            Err(response) => HostAction::Respond(response.to_text()),
        }
    } else if same_text(method.as_str(), "ping") {
        HostAction::Respond(respond(id_of(request), "result", empty_object()).to_text())
    } else {
        let mut message: Vec<char> = Vec::new();
        append_str(&mut message, "Method not found: ");
        append_str(&mut message, method.as_str());
        let message = from_chars(message.as_slice());
        HostAction::Respond(
            respond(id_of(request), "error", error_value("-32601", message.as_str())).to_text(),
        )
    }
}

/// Decides what to do with a message of the host. A message that lacks an
/// id is a notification: nothing is sent for it.
pub fn dispatch(message: &str) -> (action: HostAction)
    ensures
        action@ == action_of(message@),
        json_parse(message@) matches Some(request) && request.member("id"@) is None
            ==> action is Ignore,
{
    if message.as_bytes().len() == 0 {
        proof {
            vstd::utf8::encode_utf8_decode_utf8(message@);
            assert(vstd::utf8::encode_utf8(message@).len() == 0);
            assert(vstd::utf8::decode_utf8(vstd::utf8::encode_utf8(message@)).len() == 0);
        }
        return HostAction::Ignore;
    }
    proof {
        if message@.len() == 0 {
            assert(message@ =~= Seq::<char>::empty());
            assert(vstd::utf8::encode_utf8(message@).len() == 0);
        }
    }
    match JsonValue::parse(message) {
        Some(request) => handle_request(&request),
        None => HostAction::Ignore,
    }
}

} // verus!
