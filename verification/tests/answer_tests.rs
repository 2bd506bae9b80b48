use mcp_client::answer::{
    format_answer, keywords_of, ranges_of, read_answer, read_files, render_answer,
    render_partial, timeout_answer,
};

fn chars(s: &str) -> Vec<char> {
    s.chars().collect()
}

fn text(c: &[char]) -> String {
    c.iter().collect()
}

fn strings(list: &[&str]) -> Vec<String> {
    list.iter().map(|s| s.to_string()).collect()
}

#[test]
fn read_answer_gives_paths_and_ranges() {
    let xml = "<ANSWER>\n  <file path=\"/codebase/a/b.py\">\n    <range>10-60</range>\n    <range>150-210</range>\n  </file>\n  <file  path=\"c.py\"></file>\n</ANSWER>";
    let got: Vec<(String, String)> =
        read_answer(&chars(xml)).iter().map(|(p, r)| (text(p), text(r))).collect();
    assert_eq!(
        got,
        vec![
            ("a/b.py".to_string(), "L10-60, L150-210".to_string()),
            ("c.py".to_string(), String::new())
        ]
    );
}

#[test]
fn an_empty_answer_names_no_file() {
    assert!(read_answer(&chars("<ANSWER></ANSWER>")).is_empty());
    assert!(read_answer(&chars("")).is_empty());
    assert!(read_answer(&chars("<file path=\"\"></file>")).is_empty());
}

#[test]
fn ranges_are_read_in_order() {
    assert_eq!(text(&ranges_of(&chars("<range>1-2</range>x<range>30-4</range>"))), "L1-2, L30-4");
    assert_eq!(text(&ranges_of(&chars("<range>a-b</range>"))), "");
    assert_eq!(text(&ranges_of(&chars(""))), "");
}

#[test]
fn keywords_are_distinct_and_not_short() {
    let got: Vec<String> =
        keywords_of(&strings(&["abc", "ab", "abc", "éé", "é", "xyz"])).iter().map(|k| text(k)).collect();
    assert_eq!(got, strings(&["abc", "éé", "xyz"]));
}

#[test]
fn an_answer_with_files_is_written_out() {
    let files = vec![(chars("/p/a.rs"), chars("L1-2")), (chars("/p/b.rs"), chars(""))];
    assert_eq!(
        render_answer(&files, &strings(&["foo", "x"]), 3, 5),
        "Found 2 relevant files.\n\n  [1/2] /p/a.rs (L1-2)\n  [2/2] /p/b.rs ()\n\ngrep keywords: foo\n\n[config] tree_depth=3, max_turns=5"
    );
}

#[test]
fn an_answer_without_files_says_so() {
    assert_eq!(
        render_answer(&vec![], &[], 1, 2),
        "No relevant files found.\n\n[config] tree_depth=1, max_turns=2"
    );
    assert_eq!(
        format_answer("<ANSWER></ANSWER>", "/root", &strings(&["ab"]), 6, 5),
        "No relevant files found.\n\n[config] tree_depth=6, max_turns=5"
    );
}

#[test]
fn line_numbers_go_beyond_nine() {
    let files: Vec<(Vec<char>, Vec<char>)> =
        (0..12).map(|i| (chars(&format!("f{}", i)), chars("L1-1"))).collect();
    let out = render_answer(&files, &[], 3, 5);
    assert!(out.starts_with("Found 12 relevant files.\n\n  [1/12] f0 (L1-1)\n"));
    assert!(out.contains("\n  [10/12] f9 (L1-1)\n  [11/12] f10 (L1-1)\n  [12/12] f11 (L1-1)\n"));
}

#[test]
fn format_answer_takes_paths_below_the_root() {
    let xml = "<ANSWER><file path=\"/codebase/src/x.rs\"><range>5-9</range></file></ANSWER>";
    let full = std::path::Path::new("/work/proj").join("src/x.rs");
    assert_eq!(
        format_answer(xml, "/work/proj", &[], 4, 3),
        format!(
            "Found 1 relevant files.\n\n  [1/1] {} (L5-9)\n\n[config] tree_depth=4, max_turns=3",
            full.to_string_lossy()
        )
    );
}

#[test]
fn files_read_are_distinct_and_relative() {
    let got: Vec<String> = read_files(&strings(&["/codebase/a", "b", "/codebase/a", "/codebase/c/d"]))
        .iter()
        .map(|f| text(f))
        .collect();
    assert_eq!(got, strings(&["a", "b", "c/d"]));
}

#[test]
fn a_partial_result_is_labelled() {
    assert_eq!(
        render_partial(&vec![chars("/p/a")], &strings(&["needle"]), 2, 1),
        "Found 1 files (max turns reached, partial result).\n\n  [1/1] /p/a\n\ngrep keywords: needle\n\n[config] tree_depth=2, max_turns=1 (timeout fallback)"
    );
    assert_eq!(render_partial(&vec![], &strings(&["needle"]), 2, 1), "Max turns reached without answer");
    assert_eq!(timeout_answer("/p", &[], &[], 3, 5), "Max turns reached without answer");
}
