use mcp_client::executor::{wrap_result, Command, ToolExecutor};

fn parse_command(cmd: &JsonValue) -> Command {
    ToolExecutor::new("/r").exec_command(cmd)
}
use mcp_client::json::JsonValue;

fn parse(t: &str) -> JsonValue {
    JsonValue::parse(t).unwrap()
}

fn strings(list: &[&str]) -> Vec<String> {
    list.iter().map(|s| s.to_string()).collect()
}

#[test]
fn a_new_executor_has_collected_nothing() {
    let e = ToolExecutor::new("/home/me/project");
    assert_eq!(e.root, "/home/me/project");
    assert!(e.collected_rg_patterns.is_empty());
    assert!(e.collected_files.is_empty());
}

#[test]
fn each_command_is_read_with_its_fields() {
    assert_eq!(
        parse_command(&parse(
            "{\"type\":\"rg\",\"pattern\":\"foo\",\"path\":\"/codebase/src\",\"include\":[\"*.rs\",5,\"*.py\"],\"exclude\":[]}"
        )),
        Command::Rg {
            pattern: "foo".to_string(),
            path: "/codebase/src".to_string(),
            included: Some(strings(&["*.rs", "*.py"])),
            excluded: Some(vec![]),
        }
    );
    assert_eq!(
        parse_command(&parse("{\"type\":\"readfile\",\"file\":\"/codebase/a\",\"start_line\":3,\"end_line\":9}")),
        Command::ReadFile { file: "/codebase/a".to_string(), start_line: Some(3), end_line: Some(9) }
    );
    assert_eq!(
        parse_command(&parse("{\"type\":\"tree\",\"path\":\"/codebase/x\",\"levels\":2}")),
        Command::Tree { path: "/codebase/x".to_string(), levels: Some(2) }
    );
    assert_eq!(
        parse_command(&parse("{\"type\":\"ls\",\"path\":\"/codebase/x\",\"long_format\":true,\"all\":true}")),
        Command::Ls { path: "/codebase/x".to_string(), long_format: true, all: true }
    );
    assert_eq!(
        parse_command(&parse("{\"type\":\"glob\",\"pattern\":\"*.rs\",\"path\":\"/codebase/x\",\"type_filter\":\"file\"}")),
        Command::Glob {
            pattern: "*.rs".to_string(),
            path: "/codebase/x".to_string(),
            type_filter: Some("file".to_string())
        }
    );
}

#[test]
fn missing_fields_take_their_defaults() {
    assert_eq!(
        parse_command(&parse("{\"type\":\"rg\"}")),
        Command::Rg { pattern: String::new(), path: "/codebase".to_string(), included: None, excluded: None }
    );
    assert_eq!(
        parse_command(&parse("{\"type\":\"rg\",\"include\":\"*.rs\",\"path\":7}")),
        Command::Rg { pattern: String::new(), path: "/codebase".to_string(), included: None, excluded: None }
    );
    assert_eq!(
        parse_command(&parse("{\"type\":\"readfile\",\"start_line\":-1,\"end_line\":\"9\"}")),
        Command::ReadFile { file: String::new(), start_line: None, end_line: None }
    );
    assert_eq!(
        parse_command(&parse("{\"type\":\"tree\"}")),
        Command::Tree { path: "/codebase".to_string(), levels: None }
    );
    assert_eq!(
        parse_command(&parse("{\"type\":\"ls\",\"long_format\":\"yes\"}")),
        Command::Ls { path: "/codebase".to_string(), long_format: false, all: false }
    );
    assert_eq!(
        parse_command(&parse("{\"type\":\"glob\"}")),
        Command::Glob { pattern: "*".to_string(), path: "/codebase".to_string(), type_filter: None }
    );
}

#[test]
fn an_unknown_type_is_kept_by_name() {
    assert_eq!(parse_command(&parse("{\"type\":\"rm\"}")), Command::Unknown { kind: "rm".to_string() });
    assert_eq!(parse_command(&parse("{}")), Command::Unknown { kind: String::new() });
    assert_eq!(parse_command(&parse("[]")), Command::Unknown { kind: String::new() });
    assert_eq!(parse_command(&parse("{\"type\":\"RG\"}")), Command::Unknown { kind: "RG".to_string() });
}

#[test]
fn a_batch_is_planned_in_key_order() {
    let mut e = ToolExecutor::new("/r");
    let args = JsonValue::Object(vec![
        ("command2".to_string(), parse("{\"type\":\"tree\"}")),
        ("note".to_string(), parse("{\"type\":\"rg\",\"pattern\":\"ignored\"}")),
        ("command10".to_string(), parse("{\"type\":\"rg\",\"pattern\":\"ten\"}")),
        ("command1".to_string(), parse("{\"type\":\"rg\",\"pattern\":\"one\"}")),
        ("commandX".to_string(), parse("{\"type\":\"readfile\",\"file\":\"/codebase/f\"}")),
        ("command3".to_string(), parse("{\"type\":\"readfile\"}")),
        ("command4".to_string(), parse("{\"type\":\"rg\",\"pattern\":4}")),
    ]);
    let plan = e.exec_tool_call(&args).unwrap();
    let keys: Vec<&str> = plan.iter().map(|(k, _)| k.as_str()).collect();
    assert_eq!(keys, vec!["command1", "command10", "command2", "command3", "command4", "commandX"]);
    assert_eq!(plan[2].1, parse("{\"type\":\"tree\"}"));
    assert_eq!(
        e.exec_command(&plan[2].1),
        Command::Tree { path: "/codebase".to_string(), levels: None }
    );
    assert_eq!(e.collected_rg_patterns, strings(&["one", "ten"]));
    assert_eq!(e.collected_files, strings(&["/codebase/f"]));
    assert_eq!(e.root, "/r");
}

#[test]
fn planning_adds_to_what_was_collected() {
    let mut e = ToolExecutor::new("/r");
    e.collected_rg_patterns.push("old".to_string());
    e.exec_tool_call(&parse("{\"command1\":{\"type\":\"rg\",\"pattern\":\"new\"}}")).unwrap();
    e.exec_tool_call(&parse("{\"command1\":{\"type\":\"rg\",\"pattern\":\"new\"}}")).unwrap();
    assert_eq!(e.collected_rg_patterns, strings(&["old", "new", "new"]));
}

#[test]
fn arguments_that_are_no_object_give_no_plan() {
    let mut e = ToolExecutor::new("/r");
    assert_eq!(e.exec_tool_call(&parse("[1]")), None);
    assert_eq!(e.exec_tool_call(&parse("\"x\"")), None);
    assert!(e.collected_rg_patterns.is_empty());
    assert_eq!(e.exec_tool_call(&parse("{}")), Some(vec![]));
}

#[test]
fn results_are_wrapped_in_tags_of_their_key() {
    assert_eq!(wrap_result("command1", "out\nput"), "<command1_result>\nout\nput\n</command1_result>");
    assert_eq!(wrap_result("", ""), "<_result>\n\n</_result>");
}

use mcp_client::executor::{
    format_long_line, glob_matches, join_results, missing_path, relative_part, rg_arguments,
    show_file, simple_glob_match, split_lines, unknown_command, FileMeta, LsEntry, SearchExit,
    INVALID_ARGS,
};
use mcp_client::listing::DirEntry;

fn chars(s: &str) -> Vec<char> {
    s.chars().collect()
}

fn file(name: &str) -> DirEntry {
    DirEntry { name: name.to_string(), is_dir: false, children: vec![] }
}

fn dir(name: &str, children: Vec<DirEntry>) -> DirEntry {
    DirEntry { name: name.to_string(), is_dir: true, children }
}

#[test]
fn lines_are_split_like_the_standard_library_does() {
    for t in ["", "a", "a\n", "a\nb", "a\r\nb\r\n", "\n", "\n\n", "a\r", "a\r\r\n", "\r\n", "x\n\ny", "é\nü"] {
        let got: Vec<String> = split_lines(&chars(t)).iter().map(|l| l.iter().collect()).collect();
        let want: Vec<String> = t.lines().map(|l| l.to_string()).collect();
        assert_eq!(got, want, "{:?}", t);
    }
}

#[test]
fn truncate_keeps_fifty_lines_of_250_bytes() {
    assert_eq!(ToolExecutor::truncate("a\nb\n"), "a\nb");
    assert_eq!(ToolExecutor::truncate(""), "");
    let long = "x".repeat(300);
    assert_eq!(ToolExecutor::truncate(&long), "x".repeat(250));
    let exact = "y".repeat(250);
    assert_eq!(ToolExecutor::truncate(&exact), exact);
    let fifty: Vec<String> = (0..50).map(|i| i.to_string()).collect();
    assert_eq!(ToolExecutor::truncate(&fifty.join("\n")), fifty.join("\n"));
    let more: Vec<String> = (0..51).map(|i| i.to_string()).collect();
    assert_eq!(
        ToolExecutor::truncate(&more.join("\n")),
        format!("{}\n... (lines truncated) ...", fifty.join("\n"))
    );
}

#[test]
fn truncate_cuts_at_the_end_of_a_character() {
    let line = format!("{}é", "x".repeat(249));
    assert_eq!(ToolExecutor::truncate(&line), "x".repeat(249));
    let line = format!("{}é", "x".repeat(248));
    assert_eq!(ToolExecutor::truncate(&line), line);
}

#[test]
fn simple_globs_fit_names() {
    assert!(simple_glob_match("anything", "*"));
    assert!(simple_glob_match("", "*"));
    assert!(simple_glob_match("main.rs", "*.rs"));
    assert!(!simple_glob_match("main.rsx", "*.rs"));
    assert!(!simple_glob_match("rs", "*.rs"));
    assert!(simple_glob_match(".rs", "*.rs"));
    assert!(simple_glob_match("test_a", "test*"));
    assert!(!simple_glob_match("a_test", "test*"));
    assert!(simple_glob_match("exact", "exact"));
    assert!(!simple_glob_match("exact", "Exact"));
    assert!(!simple_glob_match("main.rs", "**/*.rs"));
    assert!(simple_glob_match("a.tar.gz", "*.tar.gz"));
    assert!(!simple_glob_match("x", "*."));
    assert!(simple_glob_match("x.", "*."));
    assert!(!simple_glob_match("x", ""));
    for (n, p) in [("a.b", "*.b"), ("ab", "a*"), ("*", "*"), ("x*", "x*"), ("a", "**"), ("*a", "**")] {
        let want = if p == "*" {
            true
        } else if let Some(ext) = p.strip_prefix("*.") {
            n.ends_with(&format!(".{}", ext))
        } else if let Some(prefix) = p.strip_suffix("*") {
            n.starts_with(prefix)
        } else {
            n == p
        };
        assert_eq!(simple_glob_match(n, p), want, "{} {}", n, p);
    }
}

#[test]
fn virtual_paths_are_taken_below_the_root() {
    assert_eq!(relative_part("/codebase/src/a.rs"), Some("src/a.rs".to_string()));
    assert_eq!(relative_part("/codebase"), Some(String::new()));
    assert_eq!(relative_part("/codebase///x"), Some("x".to_string()));
    assert_eq!(relative_part("/codebasement"), Some("ment".to_string()));
    assert_eq!(relative_part("/other/x"), None);
    assert_eq!(relative_part("codebase/x"), None);
    let e = ToolExecutor::new("/home/me/p");
    assert_eq!(e.real_path("/etc/hosts"), "/etc/hosts");
    assert_eq!(e.real_path("rel"), "rel");
    assert_eq!(
        e.real_path("/codebase/src/a.rs"),
        std::path::Path::new("/home/me/p").join("src/a.rs").to_string_lossy()
    );
    assert_eq!(
        e.real_path("/codebase"),
        std::path::Path::new("/home/me/p").join("").to_string_lossy()
    );
}

#[test]
fn remap_shows_the_root_as_codebase() {
    let e = ToolExecutor::new("/home/me/p");
    assert_eq!(e.remap("/home/me/p/src/a.rs:1:x /home/me/p"), "/codebase/src/a.rs:1:x /codebase");
    assert_eq!(e.remap("nothing"), "nothing");
}

#[test]
fn a_tree_is_shown_below_the_path_asked_for() {
    let e = ToolExecutor::new("/r");
    let entries = vec![dir("src", vec![file("a.rs")]), file("b")];
    assert_eq!(
        e.tree("/codebase", None, Some(&entries)),
        "/codebase\n├── src\n│   └── a.rs\n└── b"
    );
    assert_eq!(e.tree("/codebase", Some(1), Some(&entries)), "/codebase\n├── src\n└── b");
    assert_eq!(e.tree("/r/x", Some(0), Some(&entries)), "/codebase/x");
    assert_eq!(e.tree("/codebase/none", Some(2), None), "Error: dir not found: /codebase/none");
}

#[test]
fn the_default_of_a_tree_is_three_levels() {
    let e = ToolExecutor::new("/r");
    let entries = vec![dir("a", vec![dir("b", vec![dir("c", vec![file("d")])])])];
    assert_eq!(e.tree("t", None, Some(&entries)), "t\n└── a\n    └── b\n        └── c");
}

#[test]
fn names_are_found_by_glob_in_order() {
    let entries = vec![
        file("z.rs"),
        dir("a-b", vec![file("x.rs")]),
        dir("a", vec![file("b.rs")]),
        file("note.txt"),
        dir(".hidden", vec![file("h.rs")]),
    ];
    let got: Vec<String> =
        glob_matches(&entries, "*.rs", "all").iter().map(|p| p.iter().collect()).collect();
    assert_eq!(got, vec!["z.rs".to_string()]);
    let got: Vec<String> =
        glob_matches(&entries, "*", "directory").iter().map(|p| p.iter().collect()).collect();
    assert_eq!(got, vec![".hidden".to_string(), "a".to_string(), "a-b".to_string()]);
    let got: Vec<String> =
        glob_matches(&entries, "*", "file").iter().map(|p| p.iter().collect()).collect();
    assert_eq!(got, vec!["note.txt".to_string(), "z.rs".to_string()]);
}

#[test]
fn a_double_star_searches_below() {
    let entries = vec![
        dir("a-b", vec![file("**")]),
        dir("a", vec![file("**"), dir("c", vec![file("**")])]),
        dir(".hidden", vec![file("**")]),
        file("**"),
    ];
    let got: Vec<String> =
        glob_matches(&entries, "**", "all").iter().map(|p| p.iter().collect()).collect();
    let mut want = vec![
        std::path::PathBuf::from("**"),
        std::path::PathBuf::from("a/**"),
        std::path::PathBuf::from("a/c/**"),
        std::path::PathBuf::from("a-b/**"),
    ];
    want.sort();
    let want: Vec<String> = want.iter().map(|p| p.to_string_lossy().to_string()).collect();
    assert_eq!(got, want);
}

#[test]
fn a_glob_search_stops_at_a_hundred_matches() {
    let entries: Vec<DirEntry> = (0..150).map(|i| file(&format!("f{:03}.rs", i))).collect();
    let got = glob_matches(&entries, "*.rs", "all");
    assert_eq!(got.len(), 100);
    assert_eq!(got[99].iter().collect::<String>(), "f099.rs");
}

#[test]
fn glob_shows_paths_below_the_virtual_root() {
    let e = ToolExecutor::new("/r");
    let entries = vec![file("b.rs"), file("a.rs"), file("c.txt")];
    assert_eq!(
        e.glob("*.rs", "/codebase/src", None, Some(&entries)),
        "/codebase/src/a.rs\n/codebase/src/b.rs"
    );
    assert_eq!(e.glob("*.py", "/codebase/src", None, Some(&entries)), "(no matches)");
    assert_eq!(e.glob("*", "/codebase/src", Some("directory"), Some(&entries)), "(no matches)");
    assert_eq!(e.glob("*", "/codebase/none", None, None), "(no matches)");
}

fn entry(name: &str, meta: Option<(bool, u64)>) -> LsEntry {
    LsEntry { name: name.to_string(), meta: meta.map(|(is_dir, len)| FileMeta { is_dir, len }) }
}

#[test]
fn a_listing_shows_names_in_order() {
    let e = ToolExecutor::new("/r");
    let listing = vec![
        entry("b.rs", Some((false, 120))),
        entry(".env", Some((false, 5))),
        entry("a", Some((true, 4096))),
        entry("gone", None),
    ];
    assert_eq!(e.ls("/codebase", false, false, Some(&listing)), "a\nb.rs\ngone");
    assert_eq!(e.ls("/codebase", false, true, Some(&listing)), ".env\na\nb.rs\ngone");
    assert_eq!(
        e.ls("/codebase", true, false, Some(&listing)),
        "total 3\ndrwxr-xr-x     4096 a\n-rwxr-xr-x      120 b.rs"
    );
    assert_eq!(e.ls("/codebase", true, true, Some(&[])), "total 0");
    assert_eq!(e.ls("/codebase", false, true, Some(&[])), "");
    assert_eq!(e.ls("/codebase/x", true, true, None), "Error: dir not found: /codebase/x");
}

#[test]
fn long_lines_align_the_size() {
    assert_eq!(format_long_line(false, 0, "f"), "-rwxr-xr-x        0 f");
    assert_eq!(format_long_line(true, 12345678, "d"), "drwxr-xr-x 12345678 d");
    assert_eq!(format_long_line(false, 123456789, "f"), "-rwxr-xr-x 123456789 f");
    assert_eq!(format_long_line(false, 42, "x"), format!("{}rwxr-xr-x {:>8} {}", "-", 42, "x"));
}

#[test]
fn a_file_is_shown_with_line_numbers() {
    let content = "one\ntwo\nthree\nfour\n";
    assert_eq!(show_file(content, None, None), "1:one\n2:two\n3:three\n4:four");
    assert_eq!(show_file(content, Some(2), Some(3)), "2:two\n3:three");
    assert_eq!(show_file(content, Some(0), Some(1)), "1:one");
    assert_eq!(show_file(content, Some(3), Some(100)), "3:three\n4:four");
    assert_eq!(show_file(content, Some(4), Some(4)), "4:four");
    assert_eq!(show_file(content, Some(5), None), "");
    assert_eq!(show_file(content, Some(3), Some(2)), "");
    assert_eq!(show_file(content, Some(u64::MAX), None), "");
    assert_eq!(show_file("", None, None), "");
    let e = ToolExecutor::new("/r");
    assert_eq!(e.readfile("/codebase/f", Some(1), Some(1), Some(content)), "1:one");
    assert_eq!(e.readfile("/codebase/f", None, None, None), "Error: file not found: /codebase/f");
}

#[test]
fn a_long_file_is_cut_to_fifty_lines() {
    let content: String = (1..=60).map(|i| format!("line {}\n", i)).collect();
    let shown = show_file(&content, Some(5), None);
    let lines: Vec<&str> = shown.lines().collect();
    assert_eq!(lines.len(), 51);
    assert_eq!(lines[0], "5:line 5");
    assert_eq!(lines[49], "54:line 54");
    assert_eq!(lines[50], "... (lines truncated) ...");
}

#[test]
fn the_search_program_gets_its_arguments() {
    assert_eq!(
        rg_arguments("foo", "/r/src", &None, &None),
        strings(&["--no-heading", "-n", "--max-count", "50", "foo", "/r/src"])
    );
    assert_eq!(
        rg_arguments("foo", "/r", &Some(strings(&["*.rs", "*.py"])), &Some(strings(&["target/**"]))),
        strings(&[
            "--no-heading", "-n", "--max-count", "50", "foo", "/r", "--glob", "*.rs", "--glob",
            "*.py", "--glob", "!target/**"
        ])
    );
    assert_eq!(
        rg_arguments("", "", &Some(vec![]), &Some(vec![])),
        strings(&["--no-heading", "-n", "--max-count", "50", "", ""])
    );
}

#[test]
fn the_output_of_a_search_depends_on_how_it_ended() {
    let e = ToolExecutor::new("/r");
    assert_eq!(e.rg_output(SearchExit::Success, "/r/a.rs:1:x\n", ""), "/codebase/a.rs:1:x");
    assert_eq!(e.rg_output(SearchExit::Success, "", "warn"), "(no matches)");
    assert_eq!(e.rg_output(SearchExit::NoMatch, "ignored", "ignored"), "(no matches)");
    assert_eq!(e.rg_output(SearchExit::Failure, "ignored", "bad regex in /r\n"), "bad regex in /codebase");
    assert_eq!(e.rg_output(SearchExit::Failure, "ignored", ""), "(no matches)");
}

#[test]
fn a_noted_search_is_collected() {
    let mut e = ToolExecutor::new("/r");
    let args = e.rg("a", "/codebase/src", &Some(strings(&["*.rs"])), &None);
    let below = std::path::Path::new("/r").join("src").to_string_lossy().to_string();
    assert_eq!(
        args,
        vec![
            "--no-heading".to_string(),
            "-n".to_string(),
            "--max-count".to_string(),
            "50".to_string(),
            "a".to_string(),
            below,
            "--glob".to_string(),
            "*.rs".to_string()
        ]
    );
    let args = e.rg("b", "/elsewhere", &None, &None);
    assert_eq!(args[5], "/elsewhere");
    assert_eq!(e.collected_rg_patterns, strings(&["a", "b"]));
    assert!(e.collected_files.is_empty());
}

#[test]
fn errors_of_commands_are_texts() {
    assert_eq!(unknown_command("rm"), "Error: unknown command type 'rm'");
    assert_eq!(missing_path("/codebase/x"), "Error: path does not exist: /codebase/x");
    assert_eq!(INVALID_ARGS, "(invalid args)");
}

#[test]
fn the_results_of_a_batch_are_put_together() {
    let results = vec![
        ("command1".to_string(), "a".to_string()),
        ("command2".to_string(), "b\nc".to_string()),
    ];
    assert_eq!(
        join_results(&results),
        "<command1_result>\na\n</command1_result><command2_result>\nb\nc\n</command2_result>"
    );
    assert_eq!(join_results(&[]), "");
}
