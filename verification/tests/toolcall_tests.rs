use mcp_client::json::JsonValue;
use mcp_client::pattern::find_captures;
use mcp_client::toolcall::{
    count_char, find_closing, parse_arguments, parse_tool_call, repair_braces, salvage_members,
    split_tool_call,
};

fn chars(s: &str) -> Vec<char> {
    s.chars().collect()
}

fn text(c: &[char]) -> String {
    c.iter().collect()
}

fn obj(members: Vec<(&str, JsonValue)>) -> JsonValue {
    JsonValue::Object(members.into_iter().map(|(k, v)| (k.to_string(), v)).collect())
}

fn s(t: &str) -> JsonValue {
    JsonValue::String(t.to_string())
}

#[test]
fn a_well_formed_call_is_read_as_it_is() {
    let call = parse_tool_call(
        "Let me look.[TOOL_CALLS]restricted_exec[ARGS]{\"command1\": {\"type\": \"tree\", \"path\": \"/codebase\", \"levels\": 2}}",
    )
    .unwrap();
    assert_eq!(call.thinking, "Let me look.");
    assert_eq!(call.name, "restricted_exec");
    assert_eq!(
        call.args,
        obj(vec![(
            "command1",
            obj(vec![
                ("levels", JsonValue::Unsigned(2)),
                ("path", s("/codebase")),
                ("type", s("tree")),
            ])
        )])
    );
}

#[test]
fn a_missing_final_brace_is_repaired() {
    let call =
        parse_tool_call("thinking...[TOOL_CALLS]answer[ARGS]{\"answer\": \"<ANSWER></ANSWER>\"")
            .unwrap();
    assert_eq!(call.name, "answer");
    assert_eq!(call.thinking, "thinking...");
    assert_eq!(call.args, obj(vec![("answer", s("<ANSWER></ANSWER>"))]));
}

#[test]
fn two_missing_braces_are_repaired() {
    let call = parse_tool_call(
        "[TOOL_CALLS]restricted_exec[ARGS]{\"command1\": {\"type\": \"ls\", \"path\": \"/codebase\"",
    )
    .unwrap();
    assert_eq!(call.thinking, "");
    assert_eq!(
        call.args,
        obj(vec![("command1", obj(vec![("path", s("/codebase")), ("type", s("ls"))]))])
    );
}

#[test]
fn one_good_command_is_salvaged_from_garbage() {
    let call = parse_tool_call(
        "[TOOL_CALLS]restricted_exec[ARGS]{\"command1\": {\"type\": \"rg\", \"pattern\": \"foo\", \"path\": \"/codebase\"}, \"command2\": {\"type\": oops, not json",
    )
    .unwrap();
    assert_eq!(call.name, "restricted_exec");
    assert_eq!(
        call.args,
        obj(vec![(
            "command1",
            obj(vec![("path", s("/codebase")), ("pattern", s("foo")), ("type", s("rg"))])
        )])
    );
}

#[test]
fn salvage_keeps_every_command_that_parses() {
    let args = parse_arguments(&chars(
        "{\"command1\": {\"type\": \"ls\"}, \"command2\": {bad}, \"command3\" : {\"type\": \"tree\"} trailing",
    ))
    .unwrap();
    assert_eq!(
        args,
        obj(vec![
            ("command1", obj(vec![("type", s("ls"))])),
            ("command3", obj(vec![("type", s("tree"))])),
        ])
    );
}

#[test]
fn an_empty_salvage_is_no_invocation() {
    assert_eq!(parse_tool_call("[TOOL_CALLS]restricted_exec[ARGS]{\"command1\": [1, 2"), None);
    assert_eq!(parse_tool_call("[TOOL_CALLS]answer[ARGS]not json at all"), None);
    assert_eq!(parse_arguments(&chars("")), None);
}

#[test]
fn text_without_both_markers_holds_no_call() {
    assert_eq!(parse_tool_call("just some text"), None);
    assert_eq!(parse_tool_call("[TOOL_CALLS]answer {\"answer\": \"x\"}"), None);
    assert_eq!(parse_tool_call("[ARGS]{\"answer\": \"x\"}"), None);
    assert_eq!(parse_tool_call(""), None);
}

#[test]
fn end_of_sequence_tokens_are_taken_out() {
    let call = parse_tool_call("a</s>b [TOOL_CALLS] answer [ARGS] {\"answer\": \"x\"}</s>").unwrap();
    assert_eq!(call.thinking, "ab");
    assert_eq!(call.name, "answer");
    assert_eq!(call.args, obj(vec![("answer", s("x"))]));
}

#[test]
fn text_behind_the_balanced_object_is_left_out() {
    let call =
        parse_tool_call("[TOOL_CALLS]answer[ARGS]{\"answer\": \"x\"} and more {text}").unwrap();
    assert_eq!(call.args, obj(vec![("answer", s("x"))]));
}

#[test]
fn split_gives_the_three_parts() {
    let parts = split_tool_call(&chars(
        "  think \n[TOOL_CALLS] restricted_exec\t[ARGS]  {\"a\": {\"b\": 1}} tail",
    ))
    .unwrap();
    assert_eq!(text(&parts.thinking), "think");
    assert_eq!(text(&parts.name), "restricted_exec");
    assert_eq!(text(&parts.json_str), "{\"a\": {\"b\": 1}}");
}

#[test]
fn split_takes_cut_off_arguments_to_the_end() {
    let parts = split_tool_call(&chars("[TOOL_CALLS]answer[ARGS]{\"answer\": \"x")).unwrap();
    assert_eq!(text(&parts.json_str), "{\"answer\": \"x");
    let parts = split_tool_call(&chars("[TOOL_CALLS]answer[ARGS]} {\"a\": 1}")).unwrap();
    assert_eq!(text(&parts.json_str), "} {\"a\": 1}");
}

#[test]
fn split_uses_the_first_markers() {
    let parts =
        split_tool_call(&chars("x[TOOL_CALLS]a[ARGS]{}[TOOL_CALLS]b[ARGS]{\"k\": 1}")).unwrap();
    assert_eq!(text(&parts.thinking), "x");
    assert_eq!(text(&parts.name), "a");
    assert_eq!(text(&parts.json_str), "{}");
}

#[test]
fn split_trims_unicode_white_space() {
    let parts =
        split_tool_call(&chars("\u{3000}t\u{a0}[TOOL_CALLS]\u{2003}n\u{2028}[ARGS]\u{85}{}"))
            .unwrap();
    assert_eq!(text(&parts.thinking), "t");
    assert_eq!(text(&parts.name), "n");
    assert_eq!(text(&parts.json_str), "{}");
}

#[test]
fn find_closing_balances_braces() {
    assert_eq!(find_closing(&chars("{a{b}c}d"), 0), Some(7));
    assert_eq!(find_closing(&chars("{a{b}c}d"), 2), Some(5));
    assert_eq!(find_closing(&chars("{a{b}c"), 0), None);
    assert_eq!(find_closing(&chars("}{}"), 0), None);
    assert_eq!(find_closing(&chars("}{{}}"), 0), Some(4));
    assert_eq!(find_closing(&chars("abc"), 0), None);
    assert_eq!(find_closing(&chars("{}"), 5), None);
}

#[test]
fn count_char_counts() {
    assert_eq!(count_char(&chars("{{}{"), '{'), 3);
    assert_eq!(count_char(&chars("{{}{"), '}'), 1);
    assert_eq!(count_char(&chars(""), '{'), 0);
}

#[test]
fn repair_adds_the_missing_braces() {
    assert_eq!(repair_braces(&chars("{{}{")).map(|v| text(&v)), Some("{{}{}}".to_string()));
    assert_eq!(repair_braces(&chars("{}")), None);
    assert_eq!(repair_braces(&chars("}}{")), None);
}

#[test]
fn captures_are_given_as_character_indices() {
    let t = chars("é \"command12\" : {");
    let found = find_captures("\"(command\\d+)\"\\s*:\\s*\\{", &t).unwrap();
    assert_eq!(found, vec![vec![Some((2, 17)), Some((3, 12))]]);
    assert_eq!(text(&t[3..12]), "command12");
}

#[test]
fn a_pattern_that_does_not_compile_gives_none() {
    assert_eq!(find_captures("(unclosed", &chars("text")), None);
}

#[test]
fn a_group_that_took_no_part_has_no_span() {
    let found = find_captures("(a)|(b)", &chars("ab")).unwrap();
    assert_eq!(
        found,
        vec![vec![Some((0, 1)), Some((0, 1)), None], vec![Some((1, 2)), None, Some((1, 2))]]
    );
}

#[test]
fn salvage_ignores_spans_that_do_not_fit() {
    let t = chars("\"command1\": {\"a\": 1}");
    let good = vec![vec![Some((0, 13)), Some((1, 9))]];
    assert_eq!(
        salvage_members(&t, &good),
        vec![("command1".to_string(), obj(vec![("a", JsonValue::Unsigned(1))]))]
    );
    assert!(salvage_members(&t, &vec![vec![Some((0, 13))]]).is_empty());
    assert!(salvage_members(&t, &vec![vec![Some((0, 13)), None]]).is_empty());
    assert!(salvage_members(&t, &vec![vec![Some((0, 13)), Some((9, 1))]]).is_empty());
    assert!(salvage_members(&t, &vec![vec![Some((0, 13)), Some((1, 900))]]).is_empty());
    assert!(salvage_members(&t, &vec![vec![Some((900, 901)), Some((1, 9))]]).is_empty());
    assert!(salvage_members(&t, &vec![vec![Some((0, 13)), Some((12, 13))]]).is_empty());
    assert!(salvage_members(&t, &vec![]).is_empty());
}

#[test]
fn a_repeated_key_replaces_the_earlier_one() {
    let t = chars("\"command1\": {\"a\": 1} \"command1\": {\"a\": 2} x");
    let found = find_captures("\"(command\\d+)\"\\s*:\\s*\\{", &t).unwrap();
    assert_eq!(
        salvage_members(&t, &found),
        vec![("command1".to_string(), obj(vec![("a", JsonValue::Unsigned(2))]))]
    );
}
