//! Recovery of a tool invocation from the model's free-form text: where the
//! call and its arguments stand, and the three ways of reading the arguments
//! (as they are, with missing closing braces added, key by key).

use crate::json::{
    insert_member, json_parse, lemma_member_index, lemma_with_member, member_index, members_view,
    with_member, Json, JsonValue,
};
use crate::pattern::{captures_of, find_captures, spans_view, Spans};
use crate::text::{
    begins_with, find, find_from, from_chars, lemma_find_from, matches_at, occurs_at, replace,
    replaced, to_chars, trim, trimmed,
};
use vstd::prelude::*;
use vstd::slice::{slice_subrange, slice_to_vec};

verus! {

/// A tool invocation recovered from the model's text.
#[derive(Debug, PartialEq)]
pub struct ToolCall {
    /// The text that stood before the call.
    pub thinking: String,
    /// The name of the tool.
    pub name: String,
    /// The arguments of the call.
    pub args: JsonValue,
}

/// What a tool invocation stands for.
pub struct ToolCallView {
    pub thinking: Seq<char>,
    pub name: Seq<char>,
    pub args: Json,
}

impl View for ToolCall {
    type V = ToolCallView;

    open spec fn view(&self) -> ToolCallView {
        ToolCallView { thinking: self.thinking@, name: self.name@, args: self.args@ }
    }
}

/// The marker that opens an inline tool call.
pub open spec fn call_marker() -> Seq<char> {
    "[TOOL_CALLS]"@
}

/// The marker that opens the arguments of a call.
pub open spec fn args_marker() -> Seq<char> {
    "[ARGS]"@
}

/// The end-of-sequence token, which is taken out of the text.
pub open spec fn end_token() -> Seq<char> {
    "</s>"@
}

/// The pattern of a command key followed by the opening brace of its value.
pub open spec fn key_pattern() -> Seq<char> {
    "\"(command\\d+)\"\\s*:\\s*\\{"@
}

/// The prefix that every command key has.
pub open spec fn key_prefix() -> Seq<char> {
    "command"@
}

/// Where the braces that are open at index `i`, `depth` of them, are all
/// closed again: the index behind the closing brace that brings the depth to
/// zero. Nothing where the text ends first.
pub open spec fn closing(raw: Seq<char>, i: int, depth: int) -> Option<int>
    decreases raw.len() - i,
{
    if i < 0 || i >= raw.len() {
        None
    } else if raw[i] == '{' {
        closing(raw, i + 1, depth + 1)
    } else if raw[i] == '}' {
        if depth == 1 {
            Some(i + 1)
        } else {
            closing(raw, i + 1, depth - 1)
        }
    } else {
        closing(raw, i + 1, depth)
    }
}

/// Where the object that starts the raw arguments ends: behind the brace
/// that balances the first one, or at the end of the text where the braces
/// never balance, which marks arguments that were cut off.
pub open spec fn brace_end(raw: Seq<char>) -> int {
    match closing(raw, 0, 0) {
        Some(end) => end,
        None => raw.len() as int,
    }
}

/// Finds where the braces from index `start` on balance. The result lies
/// behind `start` and within the text.
pub fn find_closing(raw: &[char], start: usize) -> (r: Option<usize>)
    ensures
        match r {
            Some(end) => closing(raw@, start as int, 0) == Some(end as int) && start < end
                <= raw@.len(),
            None => closing(raw@, start as int, 0) is None,
        },
{
    let mut i: usize = start;
    let mut opened: usize = 0;
    let mut closed: usize = 0;
    while i < raw.len()
        invariant
            start <= i,
            opened <= i - start,
            closed <= i - start,
            i <= raw@.len() || i == start,
            closing(raw@, start as int, 0) == closing(raw@, i as int, opened - closed),
        decreases raw@.len() - i,
    {
        let c = raw[i];
        if c == '{' {
            opened = opened + 1;
        } else if c == '}' {
            if opened == closed + 1 {
                return Some(i + 1);
            }
            closed = closed + 1;
        }
        i = i + 1;
    }
    None
}

/// How often a character stands in a text.
pub open spec fn count_of(s: Seq<char>, c: char) -> nat
    decreases s.len(),
{
    if s.len() == 0 {
        0
    } else {
        count_of(s.drop_last(), c) + (if s.last() == c {
            1nat
        } else {
            0nat
        })
    }
}

/// Counts how often a character stands in a text.
pub fn count_char(s: &[char], c: char) -> (n: usize)
    ensures
        n == count_of(s@, c),
        n <= s@.len(),
{
    let mut n: usize = 0;
    let mut i: usize = 0;
    proof {
        assert(s@.take(0) =~= Seq::<char>::empty());
    }
    while i < s.len()
        invariant
            i <= s@.len(),
            n <= i,
            n == count_of(s@.take(i as int), c),
        decreases s@.len() - i,
    {
        proof {
            assert(s@.take(i + 1).drop_last() =~= s@.take(i as int));
        }
        if s[i] == c {
            n = n + 1;
        }
        i = i + 1;
    }
    proof {
        assert(s@.take(s@.len() as int) =~= s@);
    }
    n
}

/// The arguments with as many closing braces added at the end as are
/// missing; nothing where none is missing.
pub open spec fn repaired(json_str: Seq<char>) -> Option<Seq<char>> {
    let open = count_of(json_str, '{');
    let close = count_of(json_str, '}');
    if open > close {
        Some(json_str + Seq::new((open - close) as nat, |i: int| '}'))
    } else {
        None
    }
}

/// Adds the closing braces that are missing at the end of cut-off
/// arguments. `None` where none is missing.
pub fn repair_braces(json_str: &[char]) -> (r: Option<Vec<char>>)
    ensures
        match r {
            Some(text) => repaired(json_str@) == Some(text@),
            None => repaired(json_str@) is None,
        },
{
    let open = count_char(json_str, '{');
    let close = count_char(json_str, '}');
    if open > close {
        let mut text = slice_to_vec(json_str);
        let missing: usize = open - close;
        let mut i: usize = 0;
        while i < missing
            invariant
                i <= missing,
                text@ == json_str@ + Seq::new(i as nat, |k: int| '}'),
            decreases missing - i,
        {
            text.push('}');
            proof {
                assert(text@ =~= json_str@ + Seq::new((i + 1) as nat, |k: int| '}'));
            }
            i = i + 1;
        }
        Some(text)
    } else {
        None
    }
}

/// The three parts of a text that holds a tool call: what stands before the
/// call marker, the tool's name, and the text of the arguments. The
/// end-of-sequence tokens are taken out first; the name stands between the
/// two markers; the arguments run from behind the arguments marker to where
/// their braces balance. Nothing where one of the markers is missing.
pub open spec fn call_parts(text: Seq<char>) -> Option<(Seq<char>, Seq<char>, Seq<char>)> {
    let clean = replaced(text, end_token(), Seq::empty());
    match find_from(clean, call_marker(), 0) {
        None => None,
        Some(at) => {
            let after = clean.skip(at + call_marker().len());
            match find_from(after, args_marker(), 0) {
                None => None,
                Some(args_at) => {
                    let raw = trimmed(after.skip(args_at + args_marker().len()));
                    Some(
                        (
                            trimmed(clean.take(at)),
                            trimmed(after.take(args_at)),
                            raw.take(brace_end(raw)),
                        ),
                    )
                },
            }
        },
    }
}

/// The parts of a text that holds a tool call.
#[derive(Debug, Clone, PartialEq)]
pub struct CallParts {
    pub thinking: Vec<char>,
    pub name: Vec<char>,
    pub json_str: Vec<char>,
}

/// Splits a text that holds a tool call into what stands before the call,
/// the tool's name and the text of the arguments.
pub fn split_tool_call(text: &[char]) -> (r: Option<CallParts>)
    ensures
        match r {
            Some(parts) => call_parts(text@) == Some(
                (parts.thinking@, parts.name@, parts.json_str@),
            ),
            None => call_parts(text@) is None,
        },
{
    let token = to_chars("</s>");
    let nothing: Vec<char> = Vec::new();
    let call = to_chars("[TOOL_CALLS]");
    let args = to_chars("[ARGS]");
    let clean = replace(text, token.as_slice(), nothing.as_slice());
    proof {
        assert(nothing@ =~= Seq::<char>::empty());
    }
    let at = match find(clean.as_slice(), call.as_slice(), 0) {
        Some(at) => at,
        None => {
            return None;
        },
    };
    proof {
        lemma_find_from(clean@, call@, 0);
        assert(occurs_at(clean@, call@, at as int));
    }
    let total: usize = clean.len();
    let after = slice_subrange(clean.as_slice(), at + call.len(), total);
    proof {
        assert(after@ =~= clean@.skip(at + call@.len()));
    }
    let args_at = match find(after, args.as_slice(), 0) {
        Some(args_at) => args_at,
        None => {
            return None;
        },
    };
    proof {
        lemma_find_from(after@, args@, 0);
        assert(occurs_at(after@, args@, args_at as int));
    }
    let name_part = slice_subrange(after, 0, args_at);
    let after_len: usize = after.len();
    let raw_part = slice_subrange(after, args_at + args.len(), after_len);
    let head = slice_subrange(clean.as_slice(), 0, at);
    proof {
        assert(name_part@ =~= after@.take(args_at as int));
        assert(raw_part@ =~= after@.skip(args_at + args@.len()));
        assert(head@ =~= clean@.take(at as int));
    }
    let name = trim(name_part);
    let raw = trim(raw_part);
    let end: usize = match find_closing(raw, 0) {
        Some(end) => end,
        None => raw.len(),
    };
    let thinking = trim(head);
    let json_str = slice_subrange(raw, 0, end);
    proof {
        assert(json_str@ =~= raw@.take(end as int));
    }
    Some(
        CallParts {
            thinking: slice_to_vec(thinking),
            name: slice_to_vec(name),
            json_str: slice_to_vec(json_str),
        },
    )
}

/// What one match of the key pattern gives: the key and the value behind
/// it. The value starts at the first opening brace of the match and ends where
/// its braces balance; it counts where it is well-formed JSON by itself.
pub open spec fn salvaged_member(json_str: Seq<char>, m: Spans) -> Option<(Seq<char>, Json)> {
    if m.len() >= 2 && m[0] is Some && m[1] is Some {
        let whole = m[0]->0;
        let key = m[1]->0;
        if whole.0 <= json_str.len() && key.0 <= key.1 <= json_str.len() && begins_with(
            json_str.subrange(key.0 as int, key.1 as int),
            key_prefix(),
        ) {
            match find_from(json_str, seq!['{'], whole.0 as int) {
                Some(start) => match closing(json_str, start, 0) {
                    Some(end) => match json_parse(json_str.subrange(start, end)) {
                        Some(value) => Some((json_str.subrange(key.0 as int, key.1 as int), value)),
                        None => None,
                    },
                    None => None,
                },
                None => None,
            }
        } else {
            None
        }
    } else {
        None
    }
}

/// The members that the matches of the key pattern give, match by match; a
/// key that comes again replaces the earlier one.
pub open spec fn salvaged(json_str: Seq<char>, found: Seq<Spans>) -> Seq<(Seq<char>, Json)>
    decreases found.len(),
{
    if found.len() == 0 {
        Seq::empty()
    } else {
        let before = salvaged(json_str, found.drop_last());
        match salvaged_member(json_str, found.last()) {
            Some((key, value)) => with_member(before, key, value),
            None => before,
        }
    }
}

/// Every key whose value could be read is kept: where a match of the key
/// pattern gives a member, the salvaged members hold a member with that key.
pub proof fn lemma_salvage_keeps_keys(
    json_str: Seq<char>,
    found: Seq<Spans>,
    i: int,
    key: Seq<char>,
    value: Json,
)
    requires
        0 <= i < found.len(),
        salvaged_member(json_str, found[i]) == Some((key, value)),
    ensures
        member_index(salvaged(json_str, found), key) is Some,
    decreases found.len(),
{
    let before = salvaged(json_str, found.drop_last());
    if i == found.len() - 1 {
        lemma_with_member(before, key, value, key);
    } else {
        assert(found.drop_last()[i] == found[i]);
        lemma_salvage_keeps_keys(json_str, found.drop_last(), i, key, value);
        match salvaged_member(json_str, found.last()) {
            Some((last_key, last_value)) => {
                lemma_with_member(before, last_key, last_value, key);
            },
            None => {},
        }
    }
}

/// Arguments that are not well-formed as they are, but are once their
/// missing closing braces are added, are read in their repaired form.
pub proof fn lemma_repair_is_read(json_str: Seq<char>, fixed: Seq<char>)
    requires
        json_parse(json_str) is None,
        repaired(json_str) == Some(fixed),
        json_parse(fixed) is Some,
    ensures
        arguments_of(json_str) == json_parse(fixed),
{
}

/// Arguments that cannot be read as a whole, repaired or not, are read key
/// by key: where at least one match of the key pattern gives a member, the
/// arguments are the object of the salvaged members, which holds a member with
/// that key.
pub proof fn lemma_salvage_is_read(
    json_str: Seq<char>,
    found: Seq<Spans>,
    i: int,
    key: Seq<char>,
    value: Json,
)
    requires
        json_parse(json_str) is None,
        repaired(json_str) matches Some(fixed) ==> json_parse(fixed) is None,
        captures_of(key_pattern(), json_str) == Some(found),
        0 <= i < found.len(),
        salvaged_member(json_str, found[i]) == Some((key, value)),
    ensures
        arguments_of(json_str) == Some(Json::Object(salvaged(json_str, found))),
        Json::Object(salvaged(json_str, found)).member(key) is Some,
{
    lemma_salvage_keeps_keys(json_str, found, i, key, value);
    lemma_member_index(salvaged(json_str, found), key);
}

/// Reads the value behind one match of the key pattern.
fn salvage_member(json_str: &[char], m: &Vec<Option<(usize, usize)>>) -> (r: Option<
    (String, JsonValue),
>)
    ensures
        match r {
            Some((key, value)) => salvaged_member(json_str@, m@) == Some((key@, value@)),
            None => salvaged_member(json_str@, m@) is None,
        },
{
    if m.len() < 2 {
        return None;
    }
    let (whole, key) = match (m[0], m[1]) {
        (Some(whole), Some(key)) => (whole, key),
        _ => {
            return None;
        },
    };
    if whole.0 > json_str.len() || key.0 > key.1 || key.1 > json_str.len() {
        return None;
    }
    let key_chars = slice_subrange(json_str, key.0, key.1);
    let prefix = to_chars("command");
    if !matches_at(key_chars, prefix.as_slice(), 0) {
        return None;
    }
    let brace: [char; 1] = ['{'];
    proof {
        assert(brace@ =~= seq!['{']);
    }
    let start = match find(json_str, brace.as_slice(), whole.0) {
        Some(start) => start,
        None => {
            return None;
        },
    };
    proof {
        lemma_find_from(json_str@, seq!['{'], whole.0 as int);
        assert(occurs_at(json_str@, seq!['{'], start as int));
    }
    let end = match find_closing(json_str, start) {
        Some(end) => end,
        None => {
            return None;
        },
    };
    let value_text = from_chars(slice_subrange(json_str, start, end));
    match JsonValue::parse(value_text.as_str()) {
        Some(value) => Some((from_chars(key_chars), value)),
        None => None,
    }
}

/// Reads, for every match of the key pattern, the value that stands behind
/// the key, and keeps those that are well-formed JSON by themselves.
pub fn salvage_members(json_str: &[char], found: &Vec<Vec<Option<(usize, usize)>>>) -> (members:
    Vec<(String, JsonValue)>)
    ensures
        members_view(members@) == salvaged(json_str@, spans_view(found@)),
{
    let mut members: Vec<(String, JsonValue)> = Vec::new();
    let ghost model = spans_view(found@);
    let mut i: usize = 0;
    proof {
        assert(model.take(0) =~= Seq::<Spans>::empty());
        assert(members_view(members@) =~= Seq::empty());
    }
    while i < found.len()
        invariant
            i <= found@.len(),
            model == spans_view(found@),
            members_view(members@) == salvaged(json_str@, model.take(i as int)),
        decreases found@.len() - i,
    {
        proof {
            assert(model.take(i + 1).drop_last() =~= model.take(i as int));
            assert(model.take(i + 1).last() == found@[i as int]@);
        }
        match salvage_member(json_str, &found[i]) {
            Some((key, value)) => {
                insert_member(&mut members, key, value);
            },
            None => {},
        }
        i = i + 1;
    }
    proof {
        assert(model.take(found@.len() as int) =~= model);
    }
    members
}

/// The arguments read out of their text, by the first of three ways that
/// gives a value: the text as it is; the text with the missing closing braces
/// added; the members salvaged key by key, where there is at least one.
pub open spec fn arguments_of(json_str: Seq<char>) -> Option<Json> {
    if json_parse(json_str) is Some {
        json_parse(json_str)
    } else if repaired(json_str) is Some && json_parse(repaired(json_str)->0) is Some {
        json_parse(repaired(json_str)->0)
    } else {
        match captures_of(key_pattern(), json_str) {
            Some(found) => if salvaged(json_str, found).len() > 0 {
                Some(Json::Object(salvaged(json_str, found)))
            } else {
                None
            },
            None => None,
        }
    }
}

/// Reads the arguments of a call out of their text, repairing and salvaging
/// where the text is not well-formed JSON.
pub fn parse_arguments(json_str: &[char]) -> (r: Option<JsonValue>)
    ensures
        match r {
            Some(args) => arguments_of(json_str@) == Some(args@),
            None => arguments_of(json_str@) is None,
        },
{
    let as_text = from_chars(json_str);
    match JsonValue::parse(as_text.as_str()) {
        Some(args) => {
            return Some(args);
        },
        None => {},
    }
    match repair_braces(json_str) {
        Some(fixed) => {
            let fixed_text = from_chars(fixed.as_slice());
            match JsonValue::parse(fixed_text.as_str()) {
                Some(args) => {
                    return Some(args);
                },
                None => {},
            }
        },
        None => {},
    }
    let found = match find_captures("\"(command\\d+)\"\\s*:\\s*\\{", json_str) {
        Some(found) => found,
        None => {
            return None;
        },
    };
    let members = salvage_members(json_str, &found);
    if members.len() > 0 {
        Some(JsonValue::object(members))
    } else {
        None
    }
}

/// The tool invocation that a text holds.
pub open spec fn tool_call_of(text: Seq<char>) -> Option<ToolCallView> {
    match call_parts(text) {
        Some((thinking, name, json_str)) => match arguments_of(json_str) {
            Some(args) => Some(ToolCallView { thinking, name, args }),
            None => None,
        },
        None => None,
    }
}

/// Recovers a tool invocation from the model's text. `None` where the text
/// holds no call, or where its arguments cannot be read in any of the three
/// ways.
pub fn parse_tool_call(text: &str) -> (r: Option<ToolCall>)
    ensures
        match r {
            Some(call) => tool_call_of(text@) == Some(call@),
            None => tool_call_of(text@) is None,
        },
{
    let chars = to_chars(text);
    let parts = match split_tool_call(chars.as_slice()) {
        Some(parts) => parts,
        None => {
            return None;
        },
    };
    match parse_arguments(parts.json_str.as_slice()) {
        Some(args) => Some(
            ToolCall {
                thinking: from_chars(parts.thinking.as_slice()),
                name: from_chars(parts.name.as_slice()),
                args,
            },
        ),
        None => None,
    }
}

} // verus!
