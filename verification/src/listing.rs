//! Directories as plain values, and the tree that is drawn of them.

use crate::text::{
    append_chars, append_str, byte_len, char_lists, from_chars, join, joined, same_text, to_chars,
    utf8_len,
};
use vstd::prelude::*;

verus! {

/// One entry of a directory, as it was read: its name, whether it is a
/// directory, and, for a directory that was read, its entries in the order of
/// their names.
#[derive(Debug, PartialEq)]
pub struct DirEntry {
    pub name: String,
    pub is_dir: bool,
    pub children: Vec<DirEntry>,
}

/// What an entry of a directory stands for.
pub struct DirEntryView {
    pub name: Seq<char>,
    pub is_dir: bool,
    pub children: Seq<DirEntryView>,
}

/// What an entry stands for.
pub open spec fn entry_model(entry: DirEntry) -> DirEntryView
    decreases entry,
{
    DirEntryView {
        name: entry.name@,
        is_dir: entry.is_dir,
        children: Seq::new(
            entry.children@.len(),
            |i: int|
                if 0 <= i < entry.children@.len() {
                    entry_model(entry.children@[i])
                } else {
                    DirEntryView { name: Seq::empty(), is_dir: false, children: Seq::empty() }
                },
        ),
    }
}

impl View for DirEntry {
    type V = DirEntryView;

    open spec fn view(&self) -> DirEntryView {
        entry_model(*self)
    }
}

/// What the entries of a directory stand for.
pub open spec fn entries_view(entries: Seq<DirEntry>) -> Seq<DirEntryView> {
    Seq::new(entries.len(), |i: int| entries[i]@)
}

/// How a tree is drawn.
#[derive(Debug, Copy, Clone, PartialEq, Eq)]
pub enum TreeStyle {
    /// The tree that a command shows: hidden entries are left out, and a
    /// walk that finds more than 500 lines goes no deeper.
    Command,
    /// The map of a repository: hidden entries and the directories of
    /// dependencies and build outputs are left out, and a walk that finds
    /// more than 2000 lines goes no deeper.
    RepoMap,
}

/// Whether a name is hidden: it begins with a dot.
pub open spec fn hidden(name: Seq<char>) -> bool {
    name.len() > 0 && name[0] == '.'
}

/// Whether a name is one of the directories that a map leaves out.
pub open spec fn left_out_of_map(name: Seq<char>) -> bool {
    name == "node_modules"@ || name == ".git"@ || name == "dist"@ || name == "build"@ || name
        == "target"@ || name == ".venv"@ || name == "__pycache__"@ || name == "vendor"@ || name
        == ".cache"@
}

/// Whether an entry is left out of a tree.
pub open spec fn skipped(style: TreeStyle, name: Seq<char>) -> bool {
    match style {
        TreeStyle::Command => hidden(name),
        TreeStyle::RepoMap => hidden(name) || left_out_of_map(name),
    }
}

/// The number of lines beyond which a walk goes no deeper.
pub open spec fn line_limit(style: TreeStyle) -> nat {
    match style {
        TreeStyle::Command => 500,
        TreeStyle::RepoMap => 2000,
    }
}

/// The index of the last entry among the first `n` that is not left out;
/// -1 where there is none.
pub open spec fn last_shown(style: TreeStyle, entries: Seq<DirEntryView>, n: int) -> int
    decreases n,
{
    if n <= 0 || n > entries.len() {
        -1
    } else if !skipped(style, entries[n - 1].name) {
        n - 1
    } else {
        last_shown(style, entries, n - 1)
    }
}

/// The index of the entry that is drawn as the last one of its directory. A
/// command's tree takes the last entry of the directory, shown or not; a map
/// takes the last entry that is shown.
pub open spec fn last_index(style: TreeStyle, entries: Seq<DirEntryView>) -> int {
    match style {
        TreeStyle::Command => entries.len() - 1,
        TreeStyle::RepoMap => last_shown(style, entries, entries.len() as int),
    }
}

/// What is drawn before the name of an entry.
pub open spec fn connector(is_last: bool) -> Seq<char> {
    if is_last {
        "└── "@
    } else {
        "├── "@
    }
}

/// What is drawn before the entries of a directory, behind the prefix of
/// the directory itself.
pub open spec fn indent(is_last: bool) -> Seq<char> {
    if is_last {
        "    "@
    } else {
        "│   "@
    }
}

/// The lines of a tree after the walk of one directory, given the lines
/// before it. A directory at the depth limit, or reached with more lines than
/// the limit, adds nothing.
pub open spec fn walked(
    style: TreeStyle,
    entries: Seq<DirEntryView>,
    prefix: Seq<char>,
    max_depth: nat,
    depth: nat,
    lines: Seq<Seq<char>>,
) -> Seq<Seq<char>>
    decreases entries, 1nat, 0nat,
{
    if depth >= max_depth || lines.len() > line_limit(style) {
        lines
    } else {
        walked_from(style, entries, 0, prefix, max_depth, depth, lines)
    }
}

/// The lines of a tree after the walk of the entries from index `i` on.
/// Every entry that is shown adds its line, and, where it is a directory, the
/// lines of its own walk, one level deeper.
pub open spec fn walked_from(
    style: TreeStyle,
    entries: Seq<DirEntryView>,
    i: int,
    prefix: Seq<char>,
    max_depth: nat,
    depth: nat,
    lines: Seq<Seq<char>>,
) -> Seq<Seq<char>>
    decreases entries, 0nat, entries.len() - i,
{
    if i < 0 || i >= entries.len() {
        lines
    } else if skipped(style, entries[i].name) {
        walked_from(style, entries, i + 1, prefix, max_depth, depth, lines)
    } else {
        let is_last = i == last_index(style, entries);
        let with_line = lines.push(prefix + connector(is_last) + entries[i].name);
        let with_children = if entries[i].is_dir {
            walked(
                style,
                entries[i].children,
                prefix + indent(is_last),
                max_depth,
                depth + 1,
                with_line,
            )
        } else {
            with_line
        };
        walked_from(style, entries, i + 1, prefix, max_depth, depth, with_children)
    }
}

/// Whether an entry is left out of a tree.
pub fn is_skipped(style: TreeStyle, name: &str) -> (r: bool)
    ensures
        r == skipped(style, name@),
{
    let chars = to_chars(name);
    let is_hidden = chars.len() > 0 && chars[0] == '.';
    match style {
        TreeStyle::Command => is_hidden,
        TreeStyle::RepoMap => is_hidden || same_text(name, "node_modules") || same_text(name, ".git")
            || same_text(name, "dist") || same_text(name, "build") || same_text(name, "target")
            || same_text(name, ".venv") || same_text(name, "__pycache__") || same_text(
            name,
            "vendor",
        ) || same_text(name, ".cache"),
    }
}

/// The index of the entry that is drawn as the last one; the length of the
/// list where no entry is.
fn find_last(style: TreeStyle, entries: &Vec<DirEntry>) -> (r: usize)
    ensures
        r <= entries@.len(),
        r < entries@.len() ==> r == last_index(style, entries_view(entries@)),
        r == entries@.len() ==> last_index(style, entries_view(entries@)) == -1,
{
    let ghost view = entries_view(entries@);
    let total: usize = entries.len();
    match style {
        TreeStyle::Command => {
            if total == 0 {
                0
            } else {
                total - 1
            }
        },
        TreeStyle::RepoMap => {
            let mut n: usize = total;
            while n > 0 && is_skipped(style, entries[n - 1].name.as_str())
                invariant
                    n <= total,
                    total == entries@.len(),
                    style == TreeStyle::RepoMap,
                    view == entries_view(entries@),
                    last_shown(style, view, total as int) == last_shown(style, view, n as int),
                decreases n,
            {
                n = n - 1;
            }
            if n == 0 {
                total
            } else {
                n - 1
            }
        },
    }
}

/// Walks one directory and adds its lines to the tree.
pub fn walk(
    style: TreeStyle,
    entries: &Vec<DirEntry>,
    prefix: &Vec<char>,
    max_depth: usize,
    depth: usize,
    lines: &mut Vec<Vec<char>>,
)
    ensures
        char_lists(final(lines)@) == walked(
            style,
            entries_view(entries@),
            prefix@,
            max_depth as nat,
            depth as nat,
            char_lists(old(lines)@),
        ),
    decreases entries,
{
    let limit: usize = match style {
        TreeStyle::Command => 500,
        TreeStyle::RepoMap => 2000,
    };
    if depth >= max_depth || lines.len() > limit {
        return ;
    }
    let ghost view = entries_view(entries@);
    let last = find_last(style, entries);
    let mut i: usize = 0;
    while i < entries.len()
        invariant
            i <= entries@.len(),
            depth < max_depth,
            view == entries_view(entries@),
            last <= entries@.len(),
            last < entries@.len() ==> last == last_index(style, view),
            last == entries@.len() ==> last_index(style, view) == -1,
            walked_from(
                style,
                view,
                0,
                prefix@,
                max_depth as nat,
                depth as nat,
                char_lists(old(lines)@),
            ) == walked_from(
                style,
                view,
                i as int,
                prefix@,
                max_depth as nat,
                depth as nat,
                char_lists(lines@),
            ),
        decreases entries@.len() - i,
    {
        let entry = &entries[i];
        proof {
            assert(view[i as int] == entry@);
        }
        if !is_skipped(style, entry.name.as_str()) {
            let is_last = i == last;
            let ghost before = char_lists(lines@);
            let mut line: Vec<char> = Vec::new();
            append_chars(&mut line, prefix.as_slice());
            append_str(
                &mut line,
                if is_last {
                    "└── "
                } else {
                    "├── "
                },
            );
            append_str(&mut line, entry.name.as_str());
            lines.push(line);
            proof {
                assert(line@ =~= prefix@ + connector(is_last) + entry.name@);
                assert(char_lists(lines@) =~= before.push(line@));
            }
            if entry.is_dir {
                let mut deeper: Vec<char> = Vec::new();
                append_chars(&mut deeper, prefix.as_slice());
                append_str(
                    &mut deeper,
                    if is_last {
                        "    "
                    } else {
                        "│   "
                    },
                );
                proof {
                    assert(deeper@ =~= prefix@ + indent(is_last));
                    vstd::std_specs::vec::axiom_vec_index_decreases(*entries, i as int);
                    assert(decreases_to!(*entries => entries[i as int]));
                    assert(decreases_to!(entries[i as int] => entries[i as int].children));
                    assert(entries_view(entry.children@) =~= entry@.children);
                }
                walk(style, &entry.children, &deeper, max_depth, depth + 1, lines);
            }
        }
        i = i + 1;
    }
}

/// The lines of the tree below a directory, drawn to the given depth.
pub fn tree_lines(style: TreeStyle, top: &str, entries: &Vec<DirEntry>, max_depth: usize) -> (lines:
    Vec<Vec<char>>)
    ensures
        char_lists(lines@) == walked(
            style,
            entries_view(entries@),
            Seq::empty(),
            max_depth as nat,
            0,
            seq![top@],
        ),
{
    let mut lines: Vec<Vec<char>> = Vec::new();
    lines.push(to_chars(top));
    let prefix: Vec<char> = Vec::new();
    proof {
        assert(char_lists(lines@) =~= seq![top@]);
        assert(prefix@ =~= Seq::<char>::empty());
    }
    walk(style, entries, &prefix, max_depth, 0, &mut lines);
    lines
}

/// The most bytes that a map of a repository may take.
pub const MAP_MAX_BYTES: usize = 256000;

/// The map of a repository drawn to the given depth: the virtual root and,
/// below it, the tree of the entries.
pub open spec fn map_at(entries: Seq<DirEntryView>, depth: nat) -> Seq<char> {
    joined(
        walked(TreeStyle::RepoMap, entries, Seq::empty(), depth, 0, seq!["/codebase"@]),
        "\n"@,
    )
}

/// The map of a repository: drawn to the given depth, or, where that takes
/// more bytes than a map may take, to the greatest lesser depth, down to 1, at
/// which it does not.
pub open spec fn repo_map(entries: Seq<DirEntryView>, depth: nat) -> Seq<char>
    decreases depth,
{
    if utf8_len(map_at(entries, depth)) > MAP_MAX_BYTES && depth > 1 {
        repo_map(entries, (depth - 1) as nat)
    } else {
        map_at(entries, depth)
    }
}

/// Draws the map of a repository from the entries of its root, to the given
/// depth or, where the map would be too large, less deep.
pub fn generate_repo_map(entries: &Vec<DirEntry>, target_depth: u32) -> (map: String)
    ensures
        map@ == repo_map(entries_view(entries@), target_depth as nat),
{
    let ghost view = entries_view(entries@);
    let newline = to_chars("\n");
    let mut depth: u32 = target_depth;
    loop
        invariant
            view == entries_view(entries@),
            newline@ == "\n"@,
            depth <= target_depth,
            repo_map(view, target_depth as nat) == repo_map(view, depth as nat),
        decreases depth,
    {
        let lines = tree_lines(TreeStyle::RepoMap, "/codebase", entries, depth as usize);
        let text = join(&lines, newline.as_slice());
        let too_large = match byte_len(text.as_slice()) {
            Some(n) => n > MAP_MAX_BYTES,
            None => true,
        };
        if too_large && depth > 1 {
            depth = depth - 1;
        } else {
            return from_chars(text.as_slice());
        }
    }
}

} // verus!
