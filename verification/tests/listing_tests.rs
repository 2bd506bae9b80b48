use mcp_client::listing::{generate_repo_map, is_skipped, tree_lines, DirEntry, TreeStyle};

fn file(name: &str) -> DirEntry {
    DirEntry { name: name.to_string(), is_dir: false, children: vec![] }
}

fn dir(name: &str, children: Vec<DirEntry>) -> DirEntry {
    DirEntry { name: name.to_string(), is_dir: true, children }
}

fn text(lines: &[Vec<char>]) -> String {
    lines.iter().map(|l| l.iter().collect::<String>()).collect::<Vec<_>>().join("\n")
}

fn sample() -> Vec<DirEntry> {
    vec![
        file(".gitignore"),
        file("Cargo.toml"),
        dir("node_modules", vec![file("x.js")]),
        dir("src", vec![dir("a", vec![file("deep.rs")]), file("main.rs")]),
        dir("target", vec![file("out")]),
    ]
}

#[test]
fn a_command_tree_hides_dot_names_and_marks_the_last_entry() {
    let lines = tree_lines(TreeStyle::Command, "/codebase", &sample(), 3);
    assert_eq!(
        text(&lines),
        "/codebase\n├── Cargo.toml\n├── node_modules\n│   └── x.js\n├── src\n│   ├── a\n│   │   └── deep.rs\n│   └── main.rs\n└── target\n    └── out"
    );
}

#[test]
fn a_hidden_last_entry_leaves_a_command_tree_without_a_last_mark() {
    let entries = vec![file("a"), file("b"), file(".z")];
    let lines = tree_lines(TreeStyle::Command, "top", &entries, 1);
    assert_eq!(text(&lines), "top\n├── a\n├── b");
}

#[test]
fn a_map_leaves_out_dependencies_and_marks_the_last_shown_entry() {
    let lines = tree_lines(TreeStyle::RepoMap, "/codebase", &sample(), 3);
    assert_eq!(
        text(&lines),
        "/codebase\n├── Cargo.toml\n└── src\n    ├── a\n    │   └── deep.rs\n    └── main.rs"
    );
}

#[test]
fn the_depth_limits_the_tree() {
    assert_eq!(text(&tree_lines(TreeStyle::Command, "t", &sample(), 0)), "t");
    assert_eq!(
        text(&tree_lines(TreeStyle::RepoMap, "t", &sample(), 1)),
        "t\n├── Cargo.toml\n└── src"
    );
    assert_eq!(
        text(&tree_lines(TreeStyle::RepoMap, "t", &sample(), 2)),
        "t\n├── Cargo.toml\n└── src\n    ├── a\n    └── main.rs"
    );
}

#[test]
fn a_walk_with_too_many_lines_goes_no_deeper() {
    let many: Vec<DirEntry> = (0..600).map(|i| file(&format!("f{:03}", i))).collect();
    let entries = vec![dir("a", many), dir("b", vec![file("never")])];
    let lines = tree_lines(TreeStyle::Command, "t", &entries, 5);
    assert_eq!(lines.len(), 1 + 1 + 600 + 1);
    assert_eq!(lines.last().unwrap().iter().collect::<String>(), "└── b");
    let lines = tree_lines(TreeStyle::RepoMap, "t", &entries, 5);
    assert_eq!(lines.len(), 1 + 1 + 600 + 1 + 1);
}

#[test]
fn names_are_skipped_by_style() {
    assert!(is_skipped(TreeStyle::Command, ".git"));
    assert!(!is_skipped(TreeStyle::Command, "node_modules"));
    assert!(!is_skipped(TreeStyle::Command, ""));
    for name in ["node_modules", ".git", "dist", "build", "target", ".venv", "__pycache__", "vendor", ".cache", ".x"] {
        assert!(is_skipped(TreeStyle::RepoMap, name), "{}", name);
    }
    assert!(!is_skipped(TreeStyle::RepoMap, "src"));
    assert!(!is_skipped(TreeStyle::RepoMap, "targets"));
}

#[test]
fn the_repo_map_is_the_tree_below_the_virtual_root() {
    assert_eq!(
        generate_repo_map(&sample(), 2),
        "/codebase\n├── Cargo.toml\n└── src\n    ├── a\n    └── main.rs"
    );
    assert_eq!(generate_repo_map(&vec![], 3), "/codebase");
    assert_eq!(generate_repo_map(&sample(), 0), "/codebase");
}

#[test]
fn a_map_that_is_too_large_is_drawn_less_deep() {
    let long = "n".repeat(200);
    let inner: Vec<DirEntry> = (0..1500).map(|i| file(&format!("{}{}", long, i))).collect();
    let entries = vec![dir("big", inner)];
    let deep = tree_lines(TreeStyle::RepoMap, "/codebase", &entries, 2);
    assert!(text(&deep).len() > 256000);
    assert_eq!(generate_repo_map(&entries, 2), "/codebase\n└── big");
    assert_eq!(generate_repo_map(&entries, 1), "/codebase\n└── big");
}
