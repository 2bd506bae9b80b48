//! One search session: its credentials, its conversation, and the
//! turn-bounded state machine that decides, after every reply of the backend,
//! whether the search goes on, ends with an answer, ends with an error, or
//! runs out of turns.

use crate::answer::{format_answer, is_answer_text, is_partial_text, timeout_answer};
use crate::executor::{command_members, files_among, patterns_among, text_or, ToolExecutor};
use crate::json::{json_text, members_view, no_members, push_number, push_text, Json, JsonValue};
use crate::prompt::{
    build_system_prompt, get_tool_definitions, system_prompt, tool_definitions,
    FINAL_FORCE_ANSWER, MAX_COMMANDS,
};
use crate::text::{
    append_decimal, append_str, begins_with, decimal, from_chars, matches_at, same_text, texts_of,
    to_chars,
};
use crate::windsurf::{
    build_request, conversation_view, metadata_bytes, parse_response, request_bytes, response_of,
    ChatMessage, ChatMessageView, HostInfo, Interpreted, WindsurfConfig, WindsurfConfigView,
};
use vstd::prelude::*;

verus! {

/// The role of a user message, as it goes on the wire.
pub const ROLE_USER: u64 = 1;

/// The role of an assistant message.
pub const ROLE_ASSISTANT: u64 = 2;

/// The role of a message that holds the result of a tool call.
pub const ROLE_TOOL: u64 = 4;

/// The role of the system message.
pub const ROLE_SYSTEM: u64 = 5;

/// The timeout hint that stands in for one that the credentials do not give.
pub const DEFAULT_TIMEOUT_MS: u64 = 30000;

/// What one search needs to reach the backend. It is fetched once for the
/// search and kept by no one else.
#[derive(Debug, Clone)]
pub struct SessionCredentials {
    pub api_key: String,
    pub jwt: String,
    pub config: WindsurfConfig,
}

/// What credentials stand for.
pub struct SessionCredentialsView {
    pub api_key: Seq<char>,
    pub jwt: Seq<char>,
    pub config: WindsurfConfigView,
}

impl View for SessionCredentials {
    type V = SessionCredentialsView;

    open spec fn view(&self) -> SessionCredentialsView {
        SessionCredentialsView { api_key: self.api_key@, jwt: self.jwt@, config: self.config@ }
    }
}

/// A text of the backend configuration; empty where it is not given.
pub open spec fn config_text(creds: Json, key: Seq<char>) -> Seq<char> {
    match creds.member("windsurf_config"@) {
        Some(config) => text_or(config, key, Seq::empty()),
        None => Seq::empty(),
    }
}

/// The timeout hint of the backend configuration, or the default.
pub open spec fn config_timeout(creds: Json) -> u64 {
    match creds.member("windsurf_config"@) {
        Some(config) => match config.member("timeout_ms"@) {
            Some(n) => match n.unsigned() {
                Some(ms) => ms,
                None => DEFAULT_TIMEOUT_MS,
            },
            None => DEFAULT_TIMEOUT_MS,
        },
        None => DEFAULT_TIMEOUT_MS,
    }
}

/// What a credentials response gives. A response with a member `error` is a
/// failure, with the error's text or, where it is no text, a standard
/// message. A response without API key or without session token is a failure
/// too. Any other response gives the credentials.
pub open spec fn credentials_of(creds: Json) -> Result<SessionCredentialsView, Seq<char>> {
    match creds.member("error"@) {
        Some(error) => Err(
            match error.text() {
                Some(message) => message,
                None => "Authentication failed"@,
            },
        ),
        None => match creds.member_text("api_key"@) {
            None => Err("No api_key"@),
            Some(api_key) => match creds.member_text("jwt"@) {
                None => Err("No jwt"@),
                Some(jwt) => Ok(
                    SessionCredentialsView {
                        api_key,
                        jwt,
                        config: WindsurfConfigView {
                            api_base: config_text(creds, "api_base"@),
                            auth_base: config_text(creds, "auth_base"@),
                            app_version: config_text(creds, "app_version"@),
                            ls_version: config_text(creds, "ls_version"@),
                            model: config_text(creds, "model"@),
                            timeout_ms: config_timeout(creds),
                        },
                    },
                ),
            },
        },
    }
}

/// A credentials response that holds an error gives no credentials,
/// whatever else it holds: no session can be opened from it, and so no request
/// to the backend be made.
pub proof fn lemma_error_gives_no_credentials(creds: Json)
    requires
        creds.member("error"@) is Some,
    ensures
        credentials_of(creds) is Err,
{
}

/// A text of the backend configuration.
fn get_config_text(creds: &JsonValue, key: &str) -> (r: String)
    ensures
        r@ == config_text(creds@, key@),
{
    match creds.get("windsurf_config") {
        Some(config) => match config.get_str(key) {
            Some(text) => text.to_owned(),
            None => String::new(),
        },
        None => String::new(),
    }
}

/// The timeout hint of the backend configuration.
fn get_config_timeout(creds: &JsonValue) -> (r: u64)
    ensures
        r == config_timeout(creds@),
{
    match creds.get("windsurf_config") {
        Some(config) => match config.get("timeout_ms") {
            Some(n) => match n.as_u64() {
                Some(ms) => ms,
                None => DEFAULT_TIMEOUT_MS,
            },
            None => DEFAULT_TIMEOUT_MS,
        },
        None => DEFAULT_TIMEOUT_MS,
    }
}

/// Reads a credentials response. A response that holds an error gives the
/// error's message and no credentials, so that no request to the backend can
/// be made from it.
pub fn parse_credentials(creds: &JsonValue) -> (r: Result<SessionCredentials, String>)
    ensures
        match r {
            Ok(credentials) => credentials_of(creds@) == Ok::<
                SessionCredentialsView,
                Seq<char>,
            >(credentials@),
            Err(message) => credentials_of(creds@) == Err::<SessionCredentialsView, Seq<char>>(
                message@,
            ),
        },
        creds@.member("error"@) is Some ==> r is Err,
{
    match creds.get("error") {
        Some(error) => {
            return Err(
                match error.as_str() {
                    Some(message) => message.to_owned(),
                    None => "Authentication failed".to_owned(),
                },
            );
        },
        None => {},
    }
    let api_key = match creds.get_str("api_key") {
        Some(api_key) => api_key.to_owned(),
        None => {
            return Err("No api_key".to_owned());
        },
    };
    let jwt = match creds.get_str("jwt") {
        Some(jwt) => jwt.to_owned(),
        None => {
            return Err("No jwt".to_owned());
        },
    };
    Ok(
        SessionCredentials {
            api_key,
            jwt,
            config: WindsurfConfig {
                api_base: get_config_text(creds, "api_base"),
                auth_base: get_config_text(creds, "auth_base"),
                app_version: get_config_text(creds, "app_version"),
                ls_version: get_config_text(creds, "ls_version"),
                model: get_config_text(creds, "model"),
                timeout_ms: get_config_timeout(creds),
            },
        },
    )
}

/// How a search ended.
#[derive(Debug, Clone, PartialEq)]
pub enum Outcome {
    /// The model gave its answer, or a text that stands for one.
    Answered(String),
    /// The turns ran out; the text is what was gathered, labelled as
    /// partial.
    TimedOut(String),
    /// The search failed; the text says why.
    Errored(String),
}

/// What the outcome of a search stands for.
pub enum OutcomeView {
    Answered(Seq<char>),
    TimedOut(Seq<char>),
    Errored(Seq<char>),
}

impl View for Outcome {
    type V = OutcomeView;

    open spec fn view(&self) -> OutcomeView {
        match self {
            Outcome::Answered(text) => OutcomeView::Answered(text@),
            Outcome::TimedOut(text) => OutcomeView::TimedOut(text@),
            Outcome::Errored(text) => OutcomeView::Errored(text@),
        }
    }
}

impl Outcome {
    /// The status under which the outcome is reported: `success`, `timeout`
    /// or `error`.
    pub fn status(&self) -> (s: &'static str)
        ensures
            s@ == (match self {
                Outcome::Answered(_) => "success"@,
                Outcome::TimedOut(_) => "timeout"@,
                Outcome::Errored(_) => "error"@,
            }),
    {
        match self {
            Outcome::Answered(_) => "success",
            Outcome::TimedOut(_) => "timeout",
            Outcome::Errored(_) => "error",
        }
    }

    /// The message that goes with the status in the report: the reason of an
    /// error, a fixed note for a timeout, nothing for a success.
    pub fn report_message(&self) -> (m: String)
        ensures
            m@ == (match self {
                Outcome::Answered(_) => Seq::<char>::empty(),
                Outcome::TimedOut(_) => "max turns"@,
                Outcome::Errored(reason) => reason@,
            }),
    {
        match self {
            Outcome::Answered(_) => String::new(),
            Outcome::TimedOut(_) => "max turns".to_owned(),
            Outcome::Errored(reason) => reason.clone(),
        }
    }

    /// What the host is told: the text of an answer or of a partial result,
    /// or the reason of an error.
    pub fn into_result(self) -> (r: Result<String, String>)
        ensures
            r == (match self {
                Outcome::Answered(text) => Ok::<String, String>(text),
                Outcome::TimedOut(text) => Ok::<String, String>(text),
                Outcome::Errored(reason) => Err::<String, String>(reason),
            }),
    {
        match self {
            Outcome::Answered(text) => Ok(text),
            Outcome::TimedOut(text) => Ok(text),
            Outcome::Errored(reason) => Err(reason),
        }
    }
}

/// The error with which a search ends when a call of the backend fails.
pub open spec fn backend_failure(reason: Seq<char>) -> Seq<char> {
    "Windsurf API error: "@ + reason
}

/// The outcome of a search whose call of the backend failed: one failed
/// call ends the whole search.
pub fn call_failed(reason: &str) -> (outcome: Outcome)
    ensures
        outcome@ == OutcomeView::Errored(backend_failure(reason@)),
{
    let mut out: Vec<char> = Vec::new();
    append_str(&mut out, "Windsurf API error: ");
    append_str(&mut out, reason);
    Outcome::Errored(from_chars(out.as_slice()))
}

/// The report of a search for the log: the query, the status, the message
/// that goes with it, how long the search took, and who served it.
pub open spec fn report_model(query: Seq<char>, outcome: OutcomeView, elapsed_ms: u64) -> Json {
    Json::Object(
        seq![
            ("query"@, Json::String(query)),
            (
                "status"@,
                Json::String(
                    match outcome {
                        OutcomeView::Answered(_) => "success"@,
                        OutcomeView::TimedOut(_) => "timeout"@,
                        OutcomeView::Errored(_) => "error"@,
                    },
                ),
            ),
            (
                "error_msg"@,
                Json::String(
                    match outcome {
                        OutcomeView::Answered(_) => Seq::empty(),
                        OutcomeView::TimedOut(_) => "max turns"@,
                        OutcomeView::Errored(reason) => reason,
                    },
                ),
            ),
            ("duration_ms"@, Json::Unsigned(elapsed_ms)),
            ("provider"@, Json::String("windsurf"@)),
        ],
    )
}

/// Builds the report of a search for the log.
pub fn build_report(query: &str, outcome: &Outcome, elapsed_ms: u64) -> (report: JsonValue)
    ensures
        report@ == report_model(query@, outcome@, elapsed_ms),
{
    let message = outcome.report_message();
    let mut members = no_members();
    push_text(&mut members, "query", query);
    push_text(&mut members, "status", outcome.status());
    push_text(&mut members, "error_msg", message.as_str());
    push_number(&mut members, "duration_ms", elapsed_ms);
    push_text(&mut members, "provider", "windsurf");
    let report = JsonValue::object(members);
    proof {
        assert(report@->Object_0 =~= report_model(query@, outcome@, elapsed_ms)->Object_0);
    }
    report
}

/// What a reply of the backend asks the session to do.
#[derive(Debug, PartialEq)]
pub enum Decision {
    /// End with an error: the reply was an error text.
    Fail(String),
    /// End with the reply's raw text: it held no tool invocation.
    Raw(String),
    /// End with the answer that the finalize action carries.
    Answer(String),
    /// Run the commands of the restricted-execution action and go on.
    Dispatch { thinking: String, args: JsonValue },
    /// Go on without doing anything: the invocation names no known action.
    Continue,
}

/// What a decision stands for.
pub enum DecisionView {
    Fail(Seq<char>),
    Raw(Seq<char>),
    Answer(Seq<char>),
    Dispatch { thinking: Seq<char>, args: Json },
    Continue,
}

impl View for Decision {
    type V = DecisionView;

    open spec fn view(&self) -> DecisionView {
        match self {
            Decision::Fail(text) => DecisionView::Fail(text@),
            Decision::Raw(text) => DecisionView::Raw(text@),
            Decision::Answer(xml) => DecisionView::Answer(xml@),
            Decision::Dispatch { thinking, args } => DecisionView::Dispatch {
                thinking: thinking@,
                args: args@,
            },
            Decision::Continue => DecisionView::Continue,
        }
    }
}

/// The marker at the start of an error text.
pub open spec fn error_marker() -> Seq<char> {
    "[Error]"@
}

/// What an interpreted reply asks for. Without an invocation, a text that
/// starts with the error marker is a failure, any other text a raw answer. The
/// action `answer` ends the search with its argument `answer`, or with nothing
/// where that is no string; the action `restricted_exec` asks for its commands
/// to be run; any other action asks for nothing.
pub open spec fn decision_of(reply: Interpreted) -> DecisionView {
    match reply.1 {
        None => if begins_with(reply.0, error_marker()) {
            DecisionView::Fail(reply.0)
        } else {
            DecisionView::Raw(reply.0)
        },
        Some((name, args)) => if name == "answer"@ {
            DecisionView::Answer(text_or(args, "answer"@, Seq::empty()))
        } else if name == "restricted_exec"@ {
            DecisionView::Dispatch { thinking: reply.0, args }
        } else {
            DecisionView::Continue
        },
    }
}

/// Decides what an interpreted reply asks for.
pub fn decide(thinking: String, call: Option<(String, JsonValue)>) -> (decision: Decision)
    ensures
        decision@ == decision_of(
            (
                thinking@,
                match call {
                    Some((name, args)) => Some((name@, args@)),
                    None => None,
                },
            ),
        ),
{
    match call {
        None => {
            let chars = to_chars(thinking.as_str());
            let marker = to_chars("[Error]");
            if matches_at(chars.as_slice(), marker.as_slice(), 0) {
                Decision::Fail(thinking)
            } else {
                Decision::Raw(thinking)
            }
        },
        Some((name, args)) => {
            if same_text(name.as_str(), "answer") {
                let xml = match args.get_str("answer") {
                    Some(xml) => xml.to_owned(),
                    None => String::new(),
                };
                Decision::Answer(xml)
            } else if same_text(name.as_str(), "restricted_exec") {
                Decision::Dispatch { thinking, args }
            } else {
                Decision::Continue
            }
        },
    }
}

/// Whether a message is the assistant's record of the tool call `id`.
pub open spec fn is_call(m: ChatMessageView, id: Seq<char>) -> bool {
    m.role == ROLE_ASSISTANT && m.tool_call_id == Some(id)
}

/// Whether no message yet records a tool call under `id`.
pub open spec fn fresh_call_id(messages: Seq<ChatMessageView>, id: Seq<char>) -> bool {
    forall|k: int| 0 <= k < messages.len() ==> !is_call(#[trigger] messages[k], id)
}

/// Whether message `i`, where it holds the result of a tool call, answers
/// exactly one earlier call of the assistant.
pub open spec fn answers_one_call(messages: Seq<ChatMessageView>, i: int) -> bool {
    match messages[i].ref_call_id {
        Some(id) => exists|j: int|
            0 <= j < i && is_call(#[trigger] messages[j], id) && forall|k: int|
                0 <= k < i && is_call(#[trigger] messages[k], id) ==> k == j,
        None => true,
    }
}

/// The invariant of a conversation: every result of a tool call answers
/// exactly one earlier call.
pub open spec fn conversation_wf(messages: Seq<ChatMessageView>) -> bool {
    forall|i: int| 0 <= i < messages.len() ==> #[trigger] answers_one_call(messages, i)
}

/// A message that is neither a tool call nor its result.
pub open spec fn plain_message(role: u64, content: Seq<char>) -> ChatMessageView {
    ChatMessageView {
        role,
        content,
        tool_call_id: None,
        tool_name: None,
        tool_args_json: None,
        ref_call_id: None,
    }
}

/// The user message that opens a search: the problem, and the map of the
/// repository to the given depth.
pub open spec fn user_content(query: Seq<char>, tree_depth: u32, repo_map: Seq<char>) -> Seq<char> {
    "Problem Statement: "@ + query + "\n\nRepo Map (tree -L "@ + decimal(tree_depth as nat)
        + " /codebase):\n```text\n"@ + repo_map + "\n```"@
}

/// The two messages that a turn with a tool call adds: the assistant's call
/// and the tool's result, tied by the call's id.
pub open spec fn tool_turn(
    thinking: Seq<char>,
    args_json: Seq<char>,
    call_id: Seq<char>,
    results: Seq<char>,
) -> Seq<ChatMessageView> {
    seq![
        ChatMessageView {
            role: ROLE_ASSISTANT,
            content: thinking,
            tool_call_id: Some(call_id),
            tool_name: Some("restricted_exec"@),
            tool_args_json: Some(args_json),
            ref_call_id: None,
        },
        ChatMessageView {
            role: ROLE_TOOL,
            content: results,
            tool_call_id: None,
            tool_name: None,
            tool_args_json: None,
            ref_call_id: Some(call_id),
        },
    ]
}

/// The number of requests handed out after one more was asked for: one more
/// as long as the turns allow it, which is while no more than `max_turns` were
/// handed out.
pub open spec fn calls_after_asking(calls: nat, max_turns: nat) -> nat {
    if calls <= max_turns {
        calls + 1
    } else {
        calls
    }
}

/// The number of requests handed out to a search of `max_turns` turns that
/// asked `asked` times.
pub open spec fn calls_handed_out(max_turns: nat, asked: nat) -> nat
    decreases asked,
{
    if asked == 0 {
        0
    } else {
        calls_after_asking(calls_handed_out(max_turns, (asked - 1) as nat), max_turns)
    }
}

/// The turn budget: a search of `max_turns` turns is handed every request
/// that it asks for up to `max_turns + 1`, and none beyond. A model that asks
/// for tools on every turn is therefore called exactly `max_turns + 1` times
/// before the search runs out of turns.
pub proof fn lemma_turn_budget(max_turns: nat, asked: nat)
    ensures
        calls_handed_out(max_turns, asked) == (if asked <= max_turns + 1 {
            asked
        } else {
            max_turns + 1
        }),
    decreases asked,
{
    if asked > 0 {
        lemma_turn_budget(max_turns, (asked - 1) as nat);
    }
}

/// What the session does on a reply of the backend.
#[derive(Debug, PartialEq)]
pub enum Reaction {
    /// The search is over.
    Finish(Outcome),
    /// The commands of the plan are to be run, each under its key, and their
    /// results recorded with `record_tool_turn`. Without a plan the arguments
    /// were no object.
    Dispatch { thinking: String, args: JsonValue, plan: Option<Vec<(String, JsonValue)>> },
    /// The next request is to be made.
    Continue,
}

/// One search: its settings, its credentials, the conversation so far, what
/// the commands so far searched for and read, and the number of requests that
/// were handed out.
pub struct SearchSession {
    pub credentials: SessionCredentials,
    pub host: HostInfo,
    pub project_root: String,
    pub tool_defs: String,
    pub tree_depth: u32,
    pub max_turns: u32,
    /// The number of requests to the backend that were handed out.
    pub calls: u64,
    pub messages: Vec<ChatMessage>,
    pub executor: ToolExecutor,
}

impl SearchSession {
    /// The invariant of a session: no more requests were handed out than
    /// the turns allow, which is one more than `max_turns`; and the
    /// conversation is well-formed.
    pub open spec fn wf(&self) -> bool {
        &&& self.calls <= self.max_turns + 1
        &&& conversation_wf(conversation_view(self.messages@))
    }

    /// Whether two sessions have the same settings and credentials.
    pub open spec fn same_setup(&self, other: &SearchSession) -> bool {
        &&& self.credentials == other.credentials
        &&& self.host == other.host
        &&& self.project_root == other.project_root
        &&& self.tool_defs == other.tool_defs
        &&& self.tree_depth == other.tree_depth
        &&& self.max_turns == other.max_turns
    }

    /// The bytes of the request that the session would make now.
    pub open spec fn request(&self) -> Seq<u8> {
        request_bytes(
            metadata_bytes(
                self.credentials@.config.app_version,
                self.credentials@.config.ls_version,
                self.credentials@.api_key,
                self.credentials@.jwt,
                self.host.os@,
                self.host.arch@,
                self.host.cores,
            ),
            conversation_view(self.messages@),
            self.tool_defs@,
        )
    }

    /// Opens a search: the conversation holds the system message, which is
    /// the system prompt for the given numbers of turns and results, and the
    /// user message with the problem and the map of the repository; nothing
    /// was requested yet. `executor` is the executor of the project's commands,
    /// which knows the project root as the file system names it.
    pub fn new(
        credentials: SessionCredentials,
        host: HostInfo,
        executor: ToolExecutor,
        query: &str,
        project_root: &str,
        repo_map: &str,
        tree_depth: u32,
        max_turns: u32,
        max_results: u32,
    ) -> (session: Self)
        ensures
            session.wf(),
            session.credentials == credentials,
            session.host == host,
            session.project_root@ == project_root@,
            session.tool_defs@ == json_text(tool_definitions(MAX_COMMANDS as nat)),
            session.tree_depth == tree_depth,
            session.max_turns == max_turns,
            session.calls == 0,
            conversation_view(session.messages@) == seq![
                plain_message(ROLE_SYSTEM, system_prompt(max_turns, MAX_COMMANDS, max_results)),
                plain_message(ROLE_USER, user_content(query@, tree_depth, repo_map@)),
            ],
            session.executor == executor,
    {
        let prompt = build_system_prompt(max_turns, MAX_COMMANDS, max_results);
        let tool_defs = get_tool_definitions(MAX_COMMANDS);
        let mut content: Vec<char> = Vec::new();
        append_str(&mut content, "Problem Statement: ");
        append_str(&mut content, query);
        append_str(&mut content, "\n\nRepo Map (tree -L ");
        append_decimal(&mut content, tree_depth as u64);
        append_str(&mut content, " /codebase):\n```text\n");
        append_str(&mut content, repo_map);
        append_str(&mut content, "\n```");
        proof {
            assert(content@ =~= user_content(query@, tree_depth, repo_map@));
        }
        let mut messages: Vec<ChatMessage> = Vec::new();
        messages.push(
            ChatMessage {
                role: ROLE_SYSTEM,
                content: prompt,
                tool_call_id: None,
                tool_name: None,
                tool_args_json: None,
                ref_call_id: None,
            },
        );
        messages.push(
            ChatMessage {
                role: ROLE_USER,
                content: from_chars(content.as_slice()),
                tool_call_id: None,
                tool_name: None,
                tool_args_json: None,
                ref_call_id: None,
            },
        );
        proof {
            let view = conversation_view(messages@);
            assert(view =~= seq![
                plain_message(ROLE_SYSTEM, system_prompt(max_turns, MAX_COMMANDS, max_results)),
                plain_message(ROLE_USER, user_content(query@, tree_depth, repo_map@)),
            ]);
            assert forall|i: int| 0 <= i < view.len() implies #[trigger] answers_one_call(
                view,
                i,
            ) by {
                assert(view[i].ref_call_id is None);
            }
        }
        SearchSession {
            credentials,
            host,
            project_root: project_root.to_owned(),
            tool_defs,
            tree_depth,
            max_turns,
            calls: 0,
            messages,
            executor,
        }
    }

    /// Hands out the request for the next turn, as long as the turns allow
    /// one: a search of `max_turns` turns makes at most `max_turns + 1`
    /// requests, the last one for the answer that the model was forced to give.
    /// `None` once they are used up; the search has then run out of turns.
    pub fn next_request(&mut self) -> (request: Option<Vec<u8>>)
        ensures
            final(self).same_setup(old(self)),
            final(self).messages == old(self).messages,
            final(self).executor == old(self).executor,
            request is Some <==> old(self).calls <= old(self).max_turns,
            request is Some ==> request->0@ == old(self).request(),
            final(self).calls == calls_after_asking(
                old(self).calls as nat,
                old(self).max_turns as nat,
            ),
            old(self).wf() ==> final(self).wf(),
    {
        if self.calls > self.max_turns as u64 {
            return None;
        }
        self.calls = self.calls + 1;
        Some(
            build_request(
                &self.credentials.config,
                self.credentials.api_key.as_str(),
                self.credentials.jwt.as_str(),
                self.messages.as_slice(),
                self.tool_defs.as_str(),
                &self.host,
            ),
        )
    }

    /// Whether the reaction `r` is the one that the reply `reply` asks for,
    /// given what the executor had collected before (`old`) and has now
    /// (`new`).
    pub open spec fn reaction_fits(
        &self,
        reply: Interpreted,
        r: Reaction,
        old: ToolExecutor,
        new: ToolExecutor,
    ) -> bool {
        match decision_of(reply) {
            DecisionView::Fail(text) => r matches Reaction::Finish(Outcome::Errored(reason))
                && reason@ == text && new == old,
            DecisionView::Raw(text) => r matches Reaction::Finish(Outcome::Answered(answer))
                && answer@ == "No relevant files found.\n\nRaw: "@ + text && new == old,
            DecisionView::Answer(xml) => r matches Reaction::Finish(Outcome::Answered(answer))
                && is_answer_text(
                answer@,
                xml,
                texts_of(old.collected_rg_patterns@),
                self.tree_depth,
                self.max_turns,
            ) && new == old,
            DecisionView::Dispatch { thinking, args } => {
                &&& r matches Reaction::Dispatch { thinking: t, args: a, plan }
                &&& t@ == thinking
                &&& a@ == args
                &&& new.root == old.root
                &&& match args.members() {
                    Some(members) => {
                        &&& plan is Some
                        &&& members_view(plan->0@) == command_members(members)
                        &&& texts_of(new.collected_rg_patterns@) == texts_of(
                            old.collected_rg_patterns@,
                        ) + patterns_among(command_members(members))
                        &&& texts_of(new.collected_files@) == texts_of(old.collected_files@)
                            + files_among(command_members(members))
                    },
                    None => plan is None && new == old,
                }
            },
            DecisionView::Continue => r is Continue && new == old,
        }
    }

    /// Takes the reply of the backend to the last request and says how the
    /// search goes on. An error that the backend reports ends it with that
    /// error. A reply without a tool invocation ends it with the reply's raw
    /// text. The finalize action ends it with the formatted answer. The
    /// restricted-execution action gives the plan of its commands and adds
    /// what they search for and read to what the session has collected. Any
    /// other action lets the search go on as it is.
    pub fn on_response(&mut self, data: &[u8]) -> (r: Reaction)
        ensures
            final(self).same_setup(old(self)),
            final(self).calls == old(self).calls,
            final(self).messages == old(self).messages,
            final(self).reaction_fits(response_of(data@), r, old(self).executor, final(self).executor),
            old(self).wf() ==> final(self).wf(),
    {
        let (thinking, call) = parse_response(data);
        match decide(thinking, call) {
            Decision::Fail(text) => Reaction::Finish(Outcome::Errored(text)),
            Decision::Raw(text) => {
                let mut out: Vec<char> = Vec::new();
                append_str(&mut out, "No relevant files found.\n\nRaw: ");
                append_str(&mut out, text.as_str());
                Reaction::Finish(Outcome::Answered(from_chars(out.as_slice())))
            },
            Decision::Answer(xml) => {
                let answer = format_answer(
                    xml.as_str(),
                    self.project_root.as_str(),
                    self.executor.collected_rg_patterns.as_slice(),
                    self.tree_depth,
                    self.max_turns,
                );
                Reaction::Finish(Outcome::Answered(answer))
            },
            Decision::Dispatch { thinking, args } => {
                let plan = self.executor.exec_tool_call(&args);
                Reaction::Dispatch { thinking, args, plan }
            },
            Decision::Continue => Reaction::Continue,
        }
    }

    /// Whether no tool call of the conversation has the id `call_id` yet.
    pub fn is_fresh_call_id(&self, call_id: &str) -> (fresh: bool)
        ensures
            fresh == fresh_call_id(conversation_view(self.messages@), call_id@),
    {
        let ghost view = conversation_view(self.messages@);
        let mut i: usize = 0;
        while i < self.messages.len()
            invariant
                i <= self.messages@.len(),
                view == conversation_view(self.messages@),
                forall|k: int| 0 <= k < i ==> !is_call(#[trigger] view[k], call_id@),
            decreases self.messages@.len() - i,
        {
            let m = &self.messages[i];
            if m.role == ROLE_ASSISTANT {
                match &m.tool_call_id {
                    Some(id) => {
                        if same_text(id.as_str(), call_id) {
                            proof {
                                assert(is_call(view[i as int], call_id@));
                            }
                            return false;
                        }
                    },
                    None => {},
                }
            }
            i = i + 1;
        }
        true
    }

    /// Records a turn in which the model called the tool: the assistant's
    /// message with the call, the tool's message with the results, and, where
    /// this was the last turn that the model may use for tools, the user
    /// message that forces the final answer.
    pub fn record_tool_turn(
        &mut self,
        thinking: String,
        args: &JsonValue,
        call_id: String,
        results: String,
    )
        requires
            fresh_call_id(conversation_view(old(self).messages@), call_id@),
        ensures
            old(self).wf() ==> final(self).wf(),
            final(self).same_setup(old(self)),
            final(self).calls == old(self).calls,
            final(self).executor == old(self).executor,
            conversation_view(final(self).messages@) == conversation_view(old(self).messages@)
                + tool_turn(thinking@, json_text(args@), call_id@, results@) + (if old(
                self,
            ).calls == old(self).max_turns {
                seq![plain_message(ROLE_USER, FINAL_FORCE_ANSWER@)]
            } else {
                Seq::empty()
            }),
    {
        let ghost before = conversation_view(self.messages@);
        let ghost turn = tool_turn(thinking@, json_text(args@), call_id@, results@);
        let args_json = args.to_text();
        self.messages.push(
            ChatMessage {
                role: ROLE_ASSISTANT,
                content: thinking,
                tool_call_id: Some(call_id.clone()),
                tool_name: Some("restricted_exec".to_owned()),
                tool_args_json: Some(args_json),
                ref_call_id: None,
            },
        );
        self.messages.push(
            ChatMessage {
                role: ROLE_TOOL,
                content: results,
                tool_call_id: None,
                tool_name: None,
                tool_args_json: None,
                ref_call_id: Some(call_id),
            },
        );
        proof {
            assert(conversation_view(self.messages@) =~= before + turn);
        }
        if self.calls == self.max_turns as u64 {
            self.messages.push(
                ChatMessage {
                    role: ROLE_USER,
                    content: FINAL_FORCE_ANSWER.to_owned(),
                    tool_call_id: None,
                    tool_name: None,
                    tool_args_json: None,
                    ref_call_id: None,
                },
            );
            proof {
                assert(conversation_view(self.messages@) =~= before + turn + seq![
                    plain_message(ROLE_USER, FINAL_FORCE_ANSWER@),
                ]);
            }
        } else {
            proof {
                assert(before + turn + Seq::<ChatMessageView>::empty() =~= before + turn);
            }
        }
        proof {
            let after = conversation_view(self.messages@);
            let n = before.len() as int;
            assert forall|i: int|
                conversation_wf(before) && 0 <= i < after.len() implies #[trigger] answers_one_call(
                after,
                i,
            ) by {
                if i < n {
                    assert(answers_one_call(before, i));
                    assert(after[i] == before[i]);
                    match before[i].ref_call_id {
                        Some(id) => {
                            let j = choose|j: int|
                                0 <= j < i && is_call(#[trigger] before[j], id) && forall|k: int|
                                    0 <= k < i && is_call(#[trigger] before[k], id) ==> k == j;
                            assert(after[j] == before[j]);
                            assert forall|k: int|
                                0 <= k < i && is_call(#[trigger] after[k], id) implies k == j by {
                                assert(after[k] == before[k]);
                            }
                        },
                        None => {},
                    }
                } else if i == n + 1 {
                    assert(after[n] == turn[0]);
                    assert(after[i] == turn[1]);
                    assert(is_call(after[n], call_id@));
                    assert forall|k: int|
                        0 <= k < i && is_call(#[trigger] after[k], call_id@) implies k == n by {
                        if k < n {
                            assert(after[k] == before[k]);
                        }
                    }
                } else if i == n {
                    assert(after[i] == turn[0]);
                } else {
                    assert(after[i] == plain_message(ROLE_USER, FINAL_FORCE_ANSWER@));
                }
            }
        }
    }

    /// Ends a search whose turns ran out: the outcome holds what was
    /// gathered on the way, labelled as a partial result.
    pub fn timed_out(&self) -> (outcome: Outcome)
        ensures
            outcome matches Outcome::TimedOut(text) && is_partial_text(
                text@,
                texts_of(self.executor.collected_files@),
                texts_of(self.executor.collected_rg_patterns@),
                self.tree_depth,
                self.max_turns,
            ),
    {
        Outcome::TimedOut(
            timeout_answer(
                self.project_root.as_str(),
                self.executor.collected_files.as_slice(),
                self.executor.collected_rg_patterns.as_slice(),
                self.tree_depth,
                self.max_turns,
            ),
        )
    }
}

} // verus!
