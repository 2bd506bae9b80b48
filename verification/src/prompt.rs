//! The texts that open a conversation: the system prompt and the message
//! that forces a final answer.

use crate::json::{
    items_view, json_text, members_view, no_members, push_member, push_text, Json, JsonValue,
};
use crate::text::{append_decimal, append_str, decimal, from_chars};
use vstd::prelude::*;

verus! {

/// The prompt up to the number of commands allowed in a turn: the task, the
/// working directory, the rules and the start of the guidelines for tool use.
pub const PROMPT_ROLE_AND_TOOLS: &'static str = r#"You are an expert software engineer, responsible for providing context \
to another engineer to solve a code issue in the current codebase. \
The user will present you with a description of the issue, and it is \
your job to provide a series of file paths with associated line ranges \
that contain ALL the information relevant to understand and correctly \
address the issue.

# IMPORTANT:
- A relevant file does not mean only the files that must be modified to \
solve the task. It means any file that contains information relevant to \
planning and implementing the fix, such as the definitions of classes \
and functions that are relevant to the pieces of code that will have to \
be modified.
- You should include enough context around the relevant lines to allow \
the engineer to understand the task correctly. You must include ENTIRE \
semantic blocks (functions, classes, definitions, etc). For example:
If addressing the issue requires modifying a method within a class, then \
you should include the entire class definition, not just the lines around \
the method we want to modify.
- NEVER truncate these blocks unless they are very large (hundreds of \
lines or more, in which case providing only a relevant portion of the \
block is acceptable).
- Your job is to essentially alleviate the job of the other engineer by \
giving them a clean starting context from which to start working. More \
precisely, you should minimize the number of files the engineer has to \
read to understand and solve the task correctly (while not providing \
irrelevant code snippets).

# ENVIRONMENT
- Working directory: /codebase. Make sure to run commands in this \
directory, not `.
- Tool access: use the restricted_exec tool ONLY
- Allowed sub-commands (schema-enforced):
  - rg: Search for patterns in files using ripgrep
    - Required: pattern (string), path (string)
    - Optional: include (array of globs), exclude (array of globs)
  - readfile: Read contents of a file with optional line range
    - Required: file (string)
    - Optional: start_line (int), end_line (int) — 1-indexed, inclusive
  - tree: Display directory structure as a tree
    - Required: path (string)
    - Optional: levels (int)

# THINKING RULES
- Think step-by-step. Plan, reason, and reflect before each tool call.
- Use tool calls liberally and purposefully to ground every conclusion \
in real code, not assumptions.
- If a command fails, rethink and try something different; do not \
complain to the user.

# FAST-SEARCH DEFAULTS (optimize rg/tree on large repos)
- Start NARROW, then widen only if needed. Prefer searching likely code \
roots first (e.g., `src/`, `lib/`, `app/`, `packages/`, `services/`) \
instead of `/codebase`.
- Prefer fixed-string search for literals: escape patterns or keep regex \
simple. Use smart case; avoid case-insensitive unless necessary.
- Prefer file-type filters and globs (in include) over full-repo scans.
- Default EXCLUDES for speed (apply via the exclude array): \
node_modules, .git, dist, build, coverage, .venv, venv, target, out, \
.cache, __pycache__, vendor, deps, third_party, logs, data, *.min.*
- Skip huge files where possible; when opening files, prefer reading \
only relevant ranges with readfile.
- Limit directory traversal with tree levels to quickly orient before \
deeper inspection.

# SOME EXAMPLES OF WORKFLOWS
- MAP – Use `tree` with small levels; `rg` on likely roots to grasp \
structure and hotspots.
- ANCHOR – `rg` for problem keywords and anchor symbols; restrict by \
language globs via include.
- TRACE – Follow imports with targeted `rg` in narrowed roots; open \
files with `readfile` scoped to entire semantic blocks.
- VERIFY – Confirm each candidate path exists by reading or additional \
searches; drop false positives (tests, vendored, generated) unless they \
must change.

# TOOL USE GUIDELINES
- You must use a SINGLE restricted_exec call in your answer, that lets \
you execute at most "#;

/// The prompt between the number of commands and the number of turns: the
/// example of a call.
pub const PROMPT_TURNS: &'static str = r#" commands in a single turn. Each command must be \
an object with a `type` field of `rg`, `readfile`, or `tree` and the appropriate fields for that type.
- Example restricted_exec usage:
[TOOL_CALLS]restricted_exec[ARGS]{{
  "command1": {{
    "type": "rg",
    "pattern": "Controller",
    "path": "/codebase/slime",
    "include": ["**/*.py"],
    "exclude": ["**/node_modules/**", "**/.git/**", "**/dist/**", \
"**/build/**", "**/.venv/**", "**/__pycache__/**"]
  }},
  "command2": {{
    "type": "readfile",
    "file": "/codebase/slime/train.py",
    "start_line": 1,
    "end_line": 200
  }},
  "command3": {{
    "type": "tree",
    "path": "/codebase/slime/",
    "levels": 2
  }}
}}
- You have at most "#;

/// The prompt between the number of turns and the second mention of the
/// number of commands.
pub const PROMPT_LIMIT: &'static str = r#" turns to interact with the environment by calling \
tools, so issuing multiple commands at once is necessary and encouraged \
to speed up your research.
- Each command result may be truncated to 50 lines; prefer multiple \
targeted reads/searches to build complete context.
- DO NOT EVER USE MORE THAN "#;

/// The prompt between the number of commands and the number of results: the
/// format of the answer and the policy for no results.
pub const PROMPT_ANSWER_FORMAT: &'static str = r#" commands in a single turn, or you will \
be penalized.

# ANSWER FORMAT (strict format, including tags)
- You will output an XML structure with a root element "ANSWER" \
containing "file" elements. Each "file" element will have a "path" \
attribute and contain "range" elements.
- You will output this as your final response.
- The line ranges must be inclusive.

Output example inside the "answer" tool argument:
<ANSWER>
  <file path="/codebase/info_theory/formulas/entropy.py">
    <range>10-60</range>
    <range>150-210</range>
  </file>
  <file path="/codebase/info_theory/data_structures/bits.py">
    <range>1-40</range>
    <range>110-170</range>
  </file>
</ANSWER>

Remember: Prefer narrow, fixed-string, and type-filtered searches with \
aggressive excludes and size/depth limits. Widen scope only as needed. \
Use the restricted tools available to you, and output your answer in \
exactly the specified format.

# NO RESULTS POLICY
If after thorough searching you are confident that NO relevant files exist \
for the given query (e.g., the function/class/concept does not exist in the \
codebase), you MUST return an empty ANSWER:
<ANSWER></ANSWER>
Do NOT return irrelevant files (such as entry points or config files) just \
to provide some output. An empty answer is always better than a misleading one.

# RESULT COUNT
Aim to return at most "#;

/// The end of the prompt, behind the number of results.
pub const PROMPT_CLOSE: &'static str = r#" files in your answer. Focus on the most \
relevant files first. If fewer files are relevant, return fewer."#;

/// The user message that tells the model that its turns are used up.
pub const FINAL_FORCE_ANSWER: &'static str =
    "You have no turns left. Now you MUST provide your final ANSWER, even if it's not complete.";

/// The number of commands that the model may put into one turn.
pub const MAX_COMMANDS: u32 = 8;

/// The system prompt: the fixed text, with the number of commands allowed in
/// a turn (twice), the number of turns and the number of results that the
/// answer should hold, each in decimal, in their places.
pub open spec fn system_prompt(max_turns: u32, max_commands: u32, max_results: u32) -> Seq<char> {
    PROMPT_ROLE_AND_TOOLS@ + decimal(max_commands as nat) + PROMPT_TURNS@ + decimal(
        max_turns as nat,
    ) + PROMPT_LIMIT@ + decimal(max_commands as nat) + PROMPT_ANSWER_FORMAT@ + decimal(
        max_results as nat,
    ) + PROMPT_CLOSE@
}

/// Builds the system prompt for a search of at most `max_turns` turns, with
/// at most `max_commands` commands in a turn and `max_results` files in the
/// answer.
pub fn build_system_prompt(max_turns: u32, max_commands: u32, max_results: u32) -> (prompt: String)
    ensures
        prompt@ == system_prompt(max_turns, max_commands, max_results),
{
    let mut out: Vec<char> = Vec::new();
    append_str(&mut out, PROMPT_ROLE_AND_TOOLS);
    append_decimal(&mut out, max_commands as u64);
    append_str(&mut out, PROMPT_TURNS);
    append_decimal(&mut out, max_turns as u64);
    append_str(&mut out, PROMPT_LIMIT);
    append_decimal(&mut out, max_commands as u64);
    append_str(&mut out, PROMPT_ANSWER_FORMAT);
    append_decimal(&mut out, max_results as u64);
    append_str(&mut out, PROMPT_CLOSE);
    proof {
        assert(out@ =~= system_prompt(max_turns, max_commands, max_results));
    }
    from_chars(out.as_slice())
}

/// An array of strings.
pub open spec fn text_array(list: Seq<Seq<char>>) -> Json {
    Json::Array(Seq::new(list.len(), |i: int| Json::String(list[i])))
}

/// The characters of each text of a list.
pub open spec fn strs_view(list: Seq<&str>) -> Seq<Seq<char>> {
    Seq::new(list.len(), |i: int| list[i]@)
}

/// Builds an array of strings.
fn string_array(list: &[&str]) -> (r: JsonValue)
    ensures
        r@ == text_array(strs_view(list@)),
{
    let ghost model = strs_view(list@);
    let mut items: Vec<JsonValue> = Vec::new();
    let mut i: usize = 0;
    proof {
        assert(items_view(items@) =~= text_array(model.take(0))->Array_0);
    }
    while i < list.len()
        invariant
            i <= list@.len(),
            model == strs_view(list@),
            items_view(items@) == text_array(model.take(i as int))->Array_0,
        decreases list@.len() - i,
    {
        let ghost before = items_view(items@);
        items.push(JsonValue::string(list[i]));
        proof {
            assert(items_view(items@) =~= before.push(Json::String(list@[i as int]@)));
            assert(items_view(items@) =~= text_array(model.take(i + 1))->Array_0);
        }
        i = i + 1;
    }
    proof {
        assert(model.take(list@.len() as int) =~= model);
    }
    JsonValue::array(items)
}

/// The schema of a field without a description.
pub open spec fn bare_field(kind: Seq<char>) -> Json {
    Json::Object(seq![("type"@, Json::String(kind))])
}

/// The schema of a field: its type and what it is for.
pub open spec fn plain_field(kind: Seq<char>, description: Seq<char>) -> Json {
    Json::Object(seq![("type"@, Json::String(kind)), ("description"@, Json::String(description))])
}

/// The schema of the field that names a command: a string with one value.
pub open spec fn kind_field(value: Seq<char>, description: Seq<char>) -> Json {
    Json::Object(
        seq![
            ("type"@, Json::String("string"@)),
            ("const"@, Json::String(value)),
            ("description"@, Json::String(description)),
        ],
    )
}

/// The schema of a field that is a list of strings.
pub open spec fn list_field(description: Seq<char>) -> Json {
    Json::Object(
        seq![
            ("type"@, Json::String("array"@)),
            ("items"@, bare_field("string"@)),
            ("description"@, Json::String(description)),
        ],
    )
}

/// The schema of a field that is one of a few strings.
pub open spec fn choice_field(choices: Seq<Seq<char>>) -> Json {
    Json::Object(seq![("type"@, Json::String("string"@)), ("enum"@, text_array(choices))])
}

/// The schema of one command: its fields, and which of them are required.
pub open spec fn command_form(fields: Seq<(Seq<char>, Json)>, required: Seq<Seq<char>>) -> Json {
    Json::Object(seq![("properties"@, Json::Object(fields)), ("required"@, text_array(required))])
}

/// The schema of the search command.
pub open spec fn rg_form() -> Json {
    command_form(
        seq![
            ("type"@, kind_field("rg"@, "Search for patterns in files using ripgrep."@)),
            ("pattern"@, plain_field("string"@, "The regex pattern to search for."@)),
            ("path"@, plain_field("string"@, "The path to search in."@)),
            (r"include"@, list_field("File patterns to include."@)),
            ("exclude"@, list_field("File patterns to exclude."@)),
        ],
        seq!["type"@, "pattern"@, "path"@],
    )
}

/// The schema of the command that reads a file.
pub open spec fn readfile_form() -> Json {
    command_form(
        seq![
            (
                "type"@,
                kind_field("readfile"@, "Read contents of a file with optional line range."@),
            ),
            ("file"@, plain_field("string"@, "Path to the file to read."@)),
            ("start_line"@, plain_field("integer"@, "Starting line number (1-indexed)."@)),
            ("end_line"@, plain_field("integer"@, "Ending line number (1-indexed)."@)),
        ],
        seq!["type"@, "file"@],
    )
}

/// The schema of the command that shows a tree.
pub open spec fn tree_form() -> Json {
    command_form(
        seq![
            ("type"@, kind_field("tree"@, "Display directory structure as a tree."@)),
            ("path"@, plain_field("string"@, "Path to the directory."@)),
            ("levels"@, plain_field("integer"@, "Number of directory levels."@)),
        ],
        seq!["type"@, "path"@],
    )
}

/// The schema of the command that lists a directory.
pub open spec fn ls_form() -> Json {
    command_form(
        seq![
            ("type"@, kind_field("ls"@, "List files in a directory."@)),
            ("path"@, plain_field("string"@, "Path to the directory."@)),
            ("long_format"@, bare_field("boolean"@)),
            ("all"@, bare_field("boolean"@)),
        ],
        seq!["type"@, "path"@],
    )
}

/// The schema of the command that finds names.
pub open spec fn glob_form() -> Json {
    command_form(
        seq![
            ("type"@, kind_field("glob"@, "Find files matching a glob pattern."@)),
            ("pattern"@, bare_field("string"@)),
            ("path"@, bare_field("string"@)),
            ("type_filter"@, choice_field(seq!["file"@, "directory"@, "all"@])),
        ],
        seq!["type"@, "pattern"@, "path"@],
    )
}

/// The schema of command number `n` of a batch: one of the five commands.
pub open spec fn command_schema(n: nat) -> Json {
    Json::Object(
        seq![
            ("type"@, Json::String("object"@)),
            (
                "description"@,
                Json::String(
                    "Command "@ + decimal(n)
                        + " to execute. Must be one of: rg, readfile, tree, ls, glob."@,
                ),
            ),
            (
                "oneOf"@,
                Json::Array(seq![rg_form(), readfile_form(), tree_form(), ls_form(), glob_form()]),
            ),
        ],
    )
}

/// Builds the schema of a field without a description.
fn bare(kind: &str) -> (r: JsonValue)
    ensures
        r@ == bare_field(kind@),
{
    let mut m = no_members();
    push_text(&mut m, "type", kind);
    let r = JsonValue::object(m);
    proof {
        assert(r@->Object_0 =~= bare_field(kind@)->Object_0);
    }
    r
}

/// Builds the schema of a field.
fn plain(kind: &str, description: &str) -> (r: JsonValue)
    ensures
        r@ == plain_field(kind@, description@),
{
    let mut m = no_members();
    push_text(&mut m, "type", kind);
    push_text(&mut m, "description", description);
    let r = JsonValue::object(m);
    proof {
        assert(r@->Object_0 =~= plain_field(kind@, description@)->Object_0);
    }
    r
}

/// Builds the schema of the field that names a command.
fn kind(value: &str, description: &str) -> (r: JsonValue)
    ensures
        r@ == kind_field(value@, description@),
{
    let mut m = no_members();
    push_text(&mut m, "type", "string");
    push_text(&mut m, "const", value);
    push_text(&mut m, "description", description);
    let r = JsonValue::object(m);
    proof {
        assert(r@->Object_0 =~= kind_field(value@, description@)->Object_0);
    }
    r
}

/// Builds the schema of a field that is a list of strings.
fn list(description: &str) -> (r: JsonValue)
    ensures
        r@ == list_field(description@),
{
    let mut m = no_members();
    push_text(&mut m, "type", "array");
    push_member(&mut m, "items", bare("string"));
    push_text(&mut m, "description", description);
    let r = JsonValue::object(m);
    proof {
        assert(r@->Object_0 =~= list_field(description@)->Object_0);
    }
    r
}

/// Builds the schema of one command.
fn form(fields: Vec<(String, JsonValue)>, required: &[&str]) -> (r: JsonValue)
    ensures
        r@ == command_form(members_view(fields@), strs_view(required@)),
{
    let mut m = no_members();
    push_member(&mut m, "properties", JsonValue::object(fields));
    push_member(&mut m, "required", string_array(required));
    let r = JsonValue::object(m);
    proof {
        assert(r@->Object_0 =~= command_form(
            members_view(fields@),
            strs_view(required@),
        )->Object_0);
    }
    r
}

/// Builds the schema of the search command.
fn rg_schema() -> (r: JsonValue)
    ensures
        r@ == rg_form(),
{
    let mut f = no_members();
    push_member(&mut f, "type", kind("rg", "Search for patterns in files using ripgrep."));
    push_member(&mut f, "pattern", plain("string", "The regex pattern to search for."));
    push_member(&mut f, "path", plain("string", "The path to search in."));
    push_member(&mut f, r"include", list("File patterns to include."));
    push_member(&mut f, "exclude", list("File patterns to exclude."));
    let required: [&str; 3] = ["type", "pattern", "path"];
    proof {
        assert(strs_view(required@) =~= seq!["type"@, "pattern"@, "path"@]);
        assert(members_view(f@) =~= rg_form()->Object_0[0].1->Object_0);
    }
    form(f, required.as_slice())
}

/// Builds the schema of the command that reads a file.
fn readfile_schema() -> (r: JsonValue)
    ensures
        r@ == readfile_form(),
{
    let mut f = no_members();
    push_member(
        &mut f,
        "type",
        kind("readfile", "Read contents of a file with optional line range."),
    );
    push_member(&mut f, "file", plain("string", "Path to the file to read."));
    push_member(&mut f, "start_line", plain("integer", "Starting line number (1-indexed)."));
    push_member(&mut f, "end_line", plain("integer", "Ending line number (1-indexed)."));
    let required: [&str; 2] = ["type", "file"];
    proof {
        assert(strs_view(required@) =~= seq!["type"@, "file"@]);
        assert(members_view(f@) =~= readfile_form()->Object_0[0].1->Object_0);
    }
    form(f, required.as_slice())
}

/// Builds the schema of the command that shows a tree.
fn tree_schema() -> (r: JsonValue)
    ensures
        r@ == tree_form(),
{
    let mut f = no_members();
    push_member(&mut f, "type", kind("tree", "Display directory structure as a tree."));
    push_member(&mut f, "path", plain("string", "Path to the directory."));
    push_member(&mut f, "levels", plain("integer", "Number of directory levels."));
    let required: [&str; 2] = ["type", "path"];
    proof {
        assert(strs_view(required@) =~= seq!["type"@, "path"@]);
        assert(members_view(f@) =~= tree_form()->Object_0[0].1->Object_0);
    }
    form(f, required.as_slice())
}

/// Builds the schema of the command that lists a directory.
fn ls_schema() -> (r: JsonValue)
    ensures
        r@ == ls_form(),
{
    let mut f = no_members();
    push_member(&mut f, "type", kind("ls", "List files in a directory."));
    push_member(&mut f, "path", plain("string", "Path to the directory."));
    push_member(&mut f, "long_format", bare("boolean"));
    push_member(&mut f, "all", bare("boolean"));
    let required: [&str; 2] = ["type", "path"];
    proof {
        assert(strs_view(required@) =~= seq!["type"@, "path"@]);
        assert(members_view(f@) =~= ls_form()->Object_0[0].1->Object_0);
    }
    form(f, required.as_slice())
}

/// Builds the schema of the command that finds names.
fn glob_schema() -> (r: JsonValue)
    ensures
        r@ == glob_form(),
{
    let choices: [&str; 3] = ["file", "directory", "all"];
    let mut filter = no_members();
    push_text(&mut filter, "type", "string");
    push_member(&mut filter, "enum", string_array(choices.as_slice()));
    let filter = JsonValue::object(filter);
    let mut f = no_members();
    push_member(&mut f, "type", kind("glob", "Find files matching a glob pattern."));
    push_member(&mut f, "pattern", bare("string"));
    push_member(&mut f, "path", bare("string"));
    push_member(&mut f, "type_filter", filter);
    let required: [&str; 3] = ["type", "pattern", "path"];
    proof {
        assert(strs_view(choices@) =~= seq!["file"@, "directory"@, "all"@]);
        assert(filter@->Object_0 =~= choice_field(seq!["file"@, "directory"@, "all"@])->Object_0);
        assert(strs_view(required@) =~= seq!["type"@, "pattern"@, "path"@]);
        assert(members_view(f@) =~= glob_form()->Object_0[0].1->Object_0);
    }
    form(f, required.as_slice())
}

/// Builds the schema of command number `n` of a batch.
pub fn build_command_schema(n: u32) -> (r: JsonValue)
    ensures
        r@ == command_schema(n as nat),
{
    let mut description: Vec<char> = Vec::new();
    append_str(&mut description, "Command ");
    append_decimal(&mut description, n as u64);
    append_str(&mut description, " to execute. Must be one of: rg, readfile, tree, ls, glob.");
    let description = from_chars(description.as_slice());
    let mut forms: Vec<JsonValue> = Vec::new();
    forms.push(rg_schema());
    forms.push(readfile_schema());
    forms.push(tree_schema());
    forms.push(ls_schema());
    forms.push(glob_schema());
    let forms = JsonValue::array(forms);
    let mut m = no_members();
    push_text(&mut m, "type", "object");
    push_text(&mut m, "description", description.as_str());
    push_member(&mut m, "oneOf", forms);
    let r = JsonValue::object(m);
    proof {
        assert(forms@->Array_0 =~= seq![
            rg_form(),
            readfile_form(),
            tree_form(),
            ls_form(),
            glob_form(),
        ]);
        assert(description@ =~= "Command "@ + decimal(n as nat)
            + " to execute. Must be one of: rg, readfile, tree, ls, glob."@);
        assert(r@->Object_0 =~= command_schema(n as nat)->Object_0);
    }
    r
}

/// One tool as the backend is told of it: a function with its name, what
/// it does, and the schema of its parameters.
pub open spec fn function_tool(
    name: Seq<char>,
    description: Seq<char>,
    fields: Seq<(Seq<char>, Json)>,
    required: Seq<Seq<char>>,
) -> Json {
    Json::Object(
        seq![
            ("type"@, Json::String("function"@)),
            (
                "function"@,
                Json::Object(
                    seq![
                        ("name"@, Json::String(name)),
                        ("description"@, Json::String(description)),
                        (
                            "parameters"@,
                            Json::Object(
                                seq![
                                    ("type"@, Json::String("object"@)),
                                    ("properties"@, Json::Object(fields)),
                                    ("required"@, text_array(required)),
                                ],
                            ),
                        ),
                    ],
                ),
            ),
        ],
    )
}

/// The commands of a batch: `command1` up to the number of commands
/// allowed, each with its schema.
pub open spec fn batch_fields(max_commands: nat) -> Seq<(Seq<char>, Json)> {
    Seq::new(
        max_commands,
        |i: int| ("command"@ + decimal((i + 1) as nat), command_schema((i + 1) as nat)),
    )
}

/// The tools that the backend is told of: the restricted execution of a
/// batch of commands, and the final answer.
pub open spec fn tool_definitions(max_commands: nat) -> Json {
    Json::Array(
        seq![
            function_tool(
                "restricted_exec"@,
                "Execute restricted commands (rg, readfile, tree, ls, glob) in parallel."@,
                batch_fields(max_commands),
                seq!["command1"@],
            ),
            function_tool(
                "answer"@,
                "Final answer with relevant files and line ranges."@,
                seq![("answer"@, plain_field("string"@, "The final answer in XML format."@))],
                seq!["answer"@],
            ),
        ],
    )
}

/// Builds one tool.
fn function(name: &str, description: &str, fields: Vec<(String, JsonValue)>, required: &[&str]) -> (r:
    JsonValue)
    ensures
        r@ == function_tool(name@, description@, members_view(fields@), strs_view(required@)),
{
    let mut parameters = no_members();
    push_text(&mut parameters, "type", "object");
    push_member(&mut parameters, "properties", JsonValue::object(fields));
    push_member(&mut parameters, "required", string_array(required));
    let parameters = JsonValue::object(parameters);
    let mut inner = no_members();
    push_text(&mut inner, "name", name);
    push_text(&mut inner, "description", description);
    push_member(&mut inner, "parameters", parameters);
    let inner = JsonValue::object(inner);
    let mut m = no_members();
    push_text(&mut m, "type", "function");
    push_member(&mut m, "function", inner);
    let r = JsonValue::object(m);
    proof {
        let want = function_tool(name@, description@, members_view(fields@), strs_view(required@));
        assert(parameters@->Object_0 =~= want->Object_0[1].1->Object_0[2].1->Object_0);
        assert(inner@->Object_0 =~= want->Object_0[1].1->Object_0);
        assert(r@->Object_0 =~= want->Object_0);
    }
    r
}

/// Writes the definitions of the tools, as JSON, for a batch of at most
/// `max_commands` commands.
pub fn get_tool_definitions(max_commands: u32) -> (text: String)
    ensures
        text@ == json_text(tool_definitions(max_commands as nat)),
{
    let mut fields = no_members();
    let mut i: u32 = 0;
    proof {
        assert(members_view(fields@) =~= batch_fields(max_commands as nat).take(0));
    }
    while i < max_commands
        invariant
            i <= max_commands,
            members_view(fields@) == batch_fields(max_commands as nat).take(i as int),
        decreases max_commands - i,
    {
        let mut key: Vec<char> = Vec::new();
        append_str(&mut key, "command");
        append_decimal(&mut key, (i + 1) as u64);
        let key = from_chars(key.as_slice());
        let schema = build_command_schema(i + 1);
        let ghost before = members_view(fields@);
        push_member(&mut fields, key.as_str(), schema);
        proof {
            assert(key@ =~= "command"@ + decimal((i + 1) as nat));
            assert(batch_fields(max_commands as nat).take(i + 1) =~= before.push(
                (key@, schema@),
            ));
        }
        i = i + 1;
    }
    proof {
        assert(batch_fields(max_commands as nat).take(max_commands as int) =~= batch_fields(
            max_commands as nat,
        ));
    }
    let first: [&str; 1] = ["command1"];
    let batch = function(
        "restricted_exec",
        "Execute restricted commands (rg, readfile, tree, ls, glob) in parallel.",
        fields,
        first.as_slice(),
    );
    let mut answer_fields = no_members();
    push_member(&mut answer_fields, "answer", plain("string", "The final answer in XML format."));
    let only: [&str; 1] = ["answer"];
    let answer = function(
        "answer",
        "Final answer with relevant files and line ranges.",
        answer_fields,
        only.as_slice(),
    );
    proof {
        assert(strs_view(first@) =~= seq!["command1"@]);
        assert(strs_view(only@) =~= seq!["answer"@]);
        assert(members_view(answer_fields@) =~= seq![
            ("answer"@, plain_field("string"@, "The final answer in XML format."@)),
        ]);
    }
    let mut tools: Vec<JsonValue> = Vec::new();
    tools.push(batch);
    tools.push(answer);
    let tools = JsonValue::array(tools);
    proof {
        assert(tools@->Array_0 =~= tool_definitions(max_commands as nat)->Array_0);
    }
    tools.to_text()
}

} // verus!
