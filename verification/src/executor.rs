//! The restricted local commands that the model may ask for: how a request
//! for them is read, what a session keeps of them, how their paths map to the
//! project, and how their output is cut to size.

use crate::json::{items_view, members_view, Json, JsonValue};
use crate::listing::{entries_view, hidden, tree_lines, walked, DirEntry, DirEntryView, TreeStyle};
use crate::text::{
    append_chars, append_decimal, append_str, begins_with, char_lists, char_width, decimal,
    ends_with, find, find_from, from_chars, has_text, in_order, is_text_le, join, joined,
    lemma_find_from, lemma_sort_position, matches_at, occurs_at, replace, replaced, same_chars,
    same_text, sort_position, sort_texts, sorted_texts, text_le, texts_of, to_chars, utf8_width,
};
use vstd::prelude::*;
use vstd::slice::{slice_subrange, slice_to_vec};

verus! {

/// One restricted command, as the executor takes it.
#[derive(Debug, Clone, PartialEq)]
pub enum Command {
    /// Search for a pattern below a path, with globs to take in and to leave out.
    Rg { pattern: String, path: String, included: Option<Vec<String>>, excluded: Option<Vec<String>> },
    /// Read a file, from a first to a last line, both counted from 1.
    ReadFile { file: String, start_line: Option<u64>, end_line: Option<u64> },
    /// Show a directory as a tree, a number of levels deep.
    Tree { path: String, levels: Option<u64> },
    /// List a directory.
    Ls { path: String, long_format: bool, all: bool },
    /// Find entries whose name fits a glob.
    Glob { pattern: String, path: String, type_filter: Option<String> },
    /// A command of a type that the executor does not know.
    Unknown { kind: String },
}

/// What a command stands for.
pub enum CommandView {
    Rg {
        pattern: Seq<char>,
        path: Seq<char>,
        included: Option<Seq<Seq<char>>>,
        excluded: Option<Seq<Seq<char>>>,
    },
    ReadFile { file: Seq<char>, start_line: Option<u64>, end_line: Option<u64> },
    Tree { path: Seq<char>, levels: Option<u64> },
    Ls { path: Seq<char>, long_format: bool, all: bool },
    Glob { pattern: Seq<char>, path: Seq<char>, type_filter: Option<Seq<char>> },
    Unknown { kind: Seq<char> },
}

/// The characters of each text of an optional list.
pub open spec fn list_view(list: Option<Vec<String>>) -> Option<Seq<Seq<char>>> {
    match list {
        Some(items) => Some(texts_of(items@)),
        None => None,
    }
}

impl View for Command {
    type V = CommandView;

    open spec fn view(&self) -> CommandView {
        match self {
            Command::Rg { pattern, path, included, excluded } => CommandView::Rg {
                pattern: pattern@,
                path: path@,
                included: list_view(*included),
                excluded: list_view(*excluded),
            },
            Command::ReadFile { file, start_line, end_line } => CommandView::ReadFile {
                file: file@,
                start_line: *start_line,
                end_line: *end_line,
            },
            Command::Tree { path, levels } => CommandView::Tree { path: path@, levels: *levels },
            Command::Ls { path, long_format, all } => CommandView::Ls {
                path: path@,
                long_format: *long_format,
                all: *all,
            },
            Command::Glob { pattern, path, type_filter } => CommandView::Glob {
                pattern: pattern@,
                path: path@,
                type_filter: match type_filter {
                    Some(t) => Some(t@),
                    None => None,
                },
            },
            Command::Unknown { kind } => CommandView::Unknown { kind: kind@ },
        }
    }
}

/// The text of a member, or a default where the member is missing or is no
/// string.
pub open spec fn text_or(value: Json, key: Seq<char>, default: Seq<char>) -> Seq<char> {
    match value.member_text(key) {
        Some(text) => text,
        None => default,
    }
}

/// The unsigned number of a member, where there is one.
pub open spec fn number_of(value: Json, key: Seq<char>) -> Option<u64> {
    match value.member(key) {
        Some(n) => n.unsigned(),
        None => None,
    }
}

/// The boolean of a member; false where the member is missing or is no
/// boolean.
pub open spec fn flag_of(value: Json, key: Seq<char>) -> bool {
    match value.member(key) {
        Some(b) => b.boolean() == Some(true),
        None => false,
    }
}

/// The strings among the items of an array, in order.
pub open spec fn strings_among(items: Seq<Json>) -> Seq<Seq<char>>
    decreases items.len(),
{
    if items.len() == 0 {
        Seq::empty()
    } else {
        match items.last().text() {
            Some(text) => strings_among(items.drop_last()).push(text),
            None => strings_among(items.drop_last()),
        }
    }
}

/// The strings of a member that is an array; nothing where the member is
/// missing or is no array.
pub open spec fn strings_of(value: Json, key: Seq<char>) -> Option<Seq<Seq<char>>> {
    match value.member(key) {
        Some(list) => match list.items() {
            Some(items) => Some(strings_among(items)),
            None => None,
        },
        None => None,
    }
}

/// The virtual path of the project root, the default of every path.
pub open spec fn codebase() -> Seq<char> {
    "/codebase"@
}

/// The command that a JSON object asks for. Its member `type` names the
/// command; members that are missing or of the wrong kind take their defaults.
pub open spec fn command_of(cmd: Json) -> CommandView {
    let kind = text_or(cmd, "type"@, Seq::empty());
    if kind == "rg"@ {
        CommandView::Rg {
            pattern: text_or(cmd, "pattern"@, Seq::empty()),
            path: text_or(cmd, "path"@, codebase()),
            included: strings_of(cmd, r"include"@),
            excluded: strings_of(cmd, "exclude"@),
        }
    } else if kind == "readfile"@ {
        CommandView::ReadFile {
            file: text_or(cmd, "file"@, Seq::empty()),
            start_line: number_of(cmd, "start_line"@),
            end_line: number_of(cmd, "end_line"@),
        }
    } else if kind == "tree"@ {
        CommandView::Tree { path: text_or(cmd, "path"@, codebase()), levels: number_of(cmd, "levels"@) }
    } else if kind == "ls"@ {
        CommandView::Ls {
            path: text_or(cmd, "path"@, codebase()),
            long_format: flag_of(cmd, "long_format"@),
            all: flag_of(cmd, "all"@),
        }
    } else if kind == "glob"@ {
        CommandView::Glob {
            pattern: text_or(cmd, "pattern"@, "*"@),
            path: text_or(cmd, "path"@, codebase()),
            type_filter: cmd.member_text("type_filter"@),
        }
    } else {
        CommandView::Unknown { kind }
    }
}

/// The text of a member, or a default.
fn get_text_or(value: &JsonValue, key: &str, default: &str) -> (r: String)
    ensures
        r@ == text_or(value@, key@, default@),
{
    match value.get_str(key) {
        Some(text) => text.to_owned(),
        None => default.to_owned(),
    }
}

/// The unsigned number of a member.
fn get_number(value: &JsonValue, key: &str) -> (r: Option<u64>)
    ensures
        r == number_of(value@, key@),
{
    match value.get(key) {
        Some(n) => n.as_u64(),
        None => None,
    }
}

/// The boolean of a member.
fn get_flag(value: &JsonValue, key: &str) -> (r: bool)
    ensures
        r == flag_of(value@, key@),
{
    match value.get(key) {
        Some(b) => match b.as_bool() {
            Some(flag) => flag,
            None => false,
        },
        None => false,
    }
}

/// The strings of a member that is an array.
fn get_strings(value: &JsonValue, key: &str) -> (r: Option<Vec<String>>)
    ensures
        list_view(r) == strings_of(value@, key@),
{
    let items = match value.get(key) {
        Some(list) => match list.as_array() {
            Some(items) => items,
            None => {
                return None;
            },
        },
        None => {
            return None;
        },
    };
    let ghost model = items_view(items@);
    let mut out: Vec<String> = Vec::new();
    let mut i: usize = 0;
    proof {
        assert(model.take(0) =~= Seq::<Json>::empty());
        assert(texts_of(out@) =~= Seq::<Seq<char>>::empty());
    }
    while i < items.len()
        invariant
            i <= items@.len(),
            model == items_view(items@),
            texts_of(out@) == strings_among(model.take(i as int)),
        decreases items@.len() - i,
    {
        proof {
            assert(model.take(i + 1).drop_last() =~= model.take(i as int));
            assert(model.take(i + 1).last() == items@[i as int]@);
        }
        match items[i].as_str() {
            Some(text) => {
                let ghost before = texts_of(out@);
                out.push(text.to_owned());
                proof {
                    assert(texts_of(out@) =~= before.push(text@));
                }
            },
            None => {},
        }
        i = i + 1;
    }
    proof {
        assert(model.take(items@.len() as int) =~= model);
    }
    Some(out)
}

/// Reads the command that a JSON object asks for.
fn read_command(cmd: &JsonValue) -> (command: Command)
    ensures
        command@ == command_of(cmd@),
{
    let kind = get_text_or(cmd, "type", "");
    proof {
        reveal_strlit("");
        assert(""@ =~= Seq::<char>::empty());
    }
    if same_text(kind.as_str(), "rg") {
        Command::Rg {
            pattern: get_text_or(cmd, "pattern", ""),
            path: get_text_or(cmd, "path", "/codebase"),
            included: get_strings(cmd, r"include"),
            excluded: get_strings(cmd, "exclude"),
        }
    } else if same_text(kind.as_str(), "readfile") {
        Command::ReadFile {
            file: get_text_or(cmd, "file", ""),
            start_line: get_number(cmd, "start_line"),
            end_line: get_number(cmd, "end_line"),
        }
    } else if same_text(kind.as_str(), "tree") {
        Command::Tree { path: get_text_or(cmd, "path", "/codebase"), levels: get_number(cmd, "levels") }
    } else if same_text(kind.as_str(), "ls") {
        Command::Ls {
            path: get_text_or(cmd, "path", "/codebase"),
            long_format: get_flag(cmd, "long_format"),
            all: get_flag(cmd, "all"),
        }
    } else if same_text(kind.as_str(), "glob") {
        let type_filter = match cmd.get_str("type_filter") {
            Some(t) => Some(t.to_owned()),
            None => None,
        };
        Command::Glob {
            pattern: get_text_or(cmd, "pattern", "*"),
            path: get_text_or(cmd, "path", "/codebase"),
            type_filter,
        }
    } else {
        Command::Unknown { kind }
    }
}

/// Where a member with the given key goes into members ordered by key:
/// behind the last member whose key does not come after it.
pub open spec fn insert_position(list: Seq<(Seq<char>, Json)>, key: Seq<char>) -> int
    decreases list.len(),
{
    if list.len() == 0 {
        0
    } else if text_le(list.last().0, key) {
        list.len() as int
    } else {
        insert_position(list.drop_last(), key)
    }
}

/// The prefix that the key of every command has.
pub open spec fn command_prefix() -> Seq<char> {
    "command"@
}

/// The members whose key begins with `command`, ordered by key; members with
/// the same key keep their order.
pub open spec fn command_members(members: Seq<(Seq<char>, Json)>) -> Seq<(Seq<char>, Json)>
    decreases members.len(),
{
    if members.len() == 0 {
        Seq::empty()
    } else {
        let before = command_members(members.drop_last());
        if begins_with(members.last().0, command_prefix()) {
            before.insert(insert_position(before, members.last().0), members.last())
        } else {
            before
        }
    }
}

/// The keys of a list of members.
pub open spec fn keys_of(list: Seq<(Seq<char>, Json)>) -> Seq<Seq<char>> {
    Seq::new(list.len(), |i: int| list[i].0)
}

/// The place of a member among members is the place of its key among their
/// keys.
pub proof fn lemma_insert_position(list: Seq<(Seq<char>, Json)>, key: Seq<char>)
    ensures
        insert_position(list, key) == sort_position(keys_of(list), key),
    decreases list.len(),
{
    if list.len() > 0 {
        assert(keys_of(list).last() == list.last().0);
        assert(keys_of(list).drop_last() =~= keys_of(list.drop_last()));
        lemma_insert_position(list.drop_last(), key);
    }
}

/// The commands of a batch come in the order of their keys.
pub proof fn lemma_commands_in_order(members: Seq<(Seq<char>, Json)>)
    ensures
        in_order(keys_of(command_members(members))),
    decreases members.len(),
{
    if members.len() > 0 {
        let before = command_members(members.drop_last());
        lemma_commands_in_order(members.drop_last());
        if begins_with(members.last().0, command_prefix()) {
            let key = members.last().0;
            let keys = keys_of(before);
            lemma_insert_position(before, key);
            lemma_sort_position(keys, key);
            let at = sort_position(keys, key);
            let after = keys_of(before.insert(at, members.last()));
            assert(after =~= keys.insert(at, key));
            assert forall|i: int, j: int| 0 <= i < j < after.len() implies text_le(
                #[trigger] after[i],
                #[trigger] after[j],
            ) by {
                if j < at {
                    assert(after[i] == keys[i] && after[j] == keys[j]);
                } else if j == at {
                    assert(after[i] == keys[i]);
                } else if i < at {
                    assert(after[i] == keys[i] && after[j] == keys[j - 1]);
                } else if i == at {
                    assert(after[j] == keys[j - 1]);
                } else {
                    assert(after[i] == keys[i - 1] && after[j] == keys[j - 1]);
                }
            }
        }
    }
}

/// What a batch adds to the search terms: the pattern of every search
/// command that names one, in the order of the keys.
pub open spec fn patterns_among(list: Seq<(Seq<char>, Json)>) -> Seq<Seq<char>>
    decreases list.len(),
{
    if list.len() == 0 {
        Seq::empty()
    } else {
        let before = patterns_among(list.drop_last());
        let cmd = list.last().1;
        if cmd.member_text("type"@) == Some("rg"@) && cmd.member_text("pattern"@) is Some {
            before.push(cmd.member_text("pattern"@)->0)
        } else {
            before
        }
    }
}

/// What a batch adds to the files read: the file of every read command that
/// names one, in the order of the keys.
pub open spec fn files_among(list: Seq<(Seq<char>, Json)>) -> Seq<Seq<char>>
    decreases list.len(),
{
    if list.len() == 0 {
        Seq::empty()
    } else {
        let before = files_among(list.drop_last());
        let cmd = list.last().1;
        if cmd.member_text("type"@) == Some("readfile"@) && cmd.member_text("file"@) is Some {
            before.push(cmd.member_text("file"@)->0)
        } else {
            before
        }
    }
}

/// What a list of borrowed members holds.
pub open spec fn borrowed_view(list: Seq<(&String, &JsonValue)>) -> Seq<(Seq<char>, Json)> {
    Seq::new(list.len(), |i: int| (list[i].0@, list[i].1@))
}

/// Picks the members whose key begins with `command` and orders them by
/// key.
fn order_commands<'a>(members: &'a Vec<(String, JsonValue)>) -> (out: Vec<
    (&'a String, &'a JsonValue),
>)
    ensures
        borrowed_view(out@) == command_members(members_view(members@)),
{
    let ghost model = members_view(members@);
    let prefix = to_chars("command");
    let mut out: Vec<(&'a String, &'a JsonValue)> = Vec::new();
    let mut i: usize = 0;
    proof {
        assert(model.take(0) =~= Seq::empty());
        assert(borrowed_view(out@) =~= Seq::empty());
    }
    while i < members.len()
        invariant
            i <= members@.len(),
            model == members_view(members@),
            prefix@ == command_prefix(),
            borrowed_view(out@) == command_members(model.take(i as int)),
        decreases members@.len() - i,
    {
        proof {
            assert(model.take(i + 1).drop_last() =~= model.take(i as int));
            assert(model.take(i + 1).last() == (members@[i as int].0@, members@[i as int].1@));
        }
        let key = to_chars(members[i].0.as_str());
        if matches_at(key.as_slice(), prefix.as_slice(), 0) {
            let ghost before = borrowed_view(out@);
            let mut at: usize = out.len();
            proof {
                assert(before.take(at as int) =~= before);
            }
            while at > 0 && !is_text_le(to_chars(out[at - 1].0.as_str()).as_slice(), key.as_slice())
                invariant
                    at <= out@.len(),
                    before == borrowed_view(out@),
                    insert_position(before, key@) == insert_position(
                        before.take(at as int),
                        key@,
                    ),
                decreases at,
            {
                proof {
                    assert(before.take(at as int).drop_last() =~= before.take(at - 1));
                    assert(before.take(at as int).last() == before[at - 1]);
                }
                at = at - 1;
            }
            proof {
                if at > 0 {
                    assert(before.take(at as int).last() == before[at - 1]);
                }
                assert(insert_position(before, key@) == at);
            }
            out.insert(at, (&members[i].0, &members[i].1));
            proof {
                assert(borrowed_view(out@) =~= before.insert(
                    at as int,
                    (members@[i as int].0@, members@[i as int].1@),
                ));
            }
        }
        i = i + 1;
    }
    proof {
        assert(model.take(members@.len() as int) =~= model);
    }
    out
}

/// The result of one command, wrapped in tags named after its key.
pub open spec fn wrapped_result(key: Seq<char>, output: Seq<char>) -> Seq<char> {
    "<"@ + key + "_result>\n"@ + output + "\n</"@ + key + "_result>"@
}

/// Wraps the result of one command in an opening and a closing tag named
/// after its key.
pub fn wrap_result(key: &str, output: &str) -> (text: String)
    ensures
        text@ == wrapped_result(key@, output@),
{
    let mut out: Vec<char> = Vec::new();
    append_str(&mut out, "<");
    append_str(&mut out, key);
    append_str(&mut out, "_result>\n");
    append_str(&mut out, output);
    append_str(&mut out, "\n</");
    append_str(&mut out, key);
    append_str(&mut out, "_result>");
    proof {
        assert(out@ =~= wrapped_result(key@, output@));
    }
    from_chars(out.as_slice())
}

/// The most lines that the result of a command may have.
pub const RESULT_MAX_LINES: usize = 50;

/// The most bytes that a line of a result may take.
pub const LINE_MAX_CHARS: usize = 250;

/// A line without the carriage return at its end.
pub open spec fn without_return(line: Seq<char>) -> Seq<char> {
    if line.len() > 0 && line.last() == '\r' {
        line.drop_last()
    } else {
        line
    }
}

/// The lines of a text from index `i` on. A line ends with a line feed, or
/// with a carriage return and a line feed, which are not part of it; what
/// stands behind the last line feed is a line too, unless it is empty.
pub open spec fn lines_from(text: Seq<char>, i: int) -> Seq<Seq<char>>
    decreases
        (if i < text.len() {
            text.len() - i
        } else {
            0
        }),
{
    if i < 0 || i >= text.len() {
        Seq::empty()
    } else {
        match find_from(text, seq!['\n'], i) {
            Some(at) => {
                proof {
                    lemma_find_from(text, seq!['\n'], i);
                }
                seq![without_return(text.subrange(i, at))] + lines_from(text, at + 1)
            },
            None => seq![text.subrange(i, text.len() as int)],
        }
    }
}

/// The lines of a text.
pub open spec fn lines_of(text: Seq<char>) -> Seq<Seq<char>> {
    lines_from(text, 0)
}

/// Splits a text into its lines.
pub fn split_lines(text: &[char]) -> (lines: Vec<Vec<char>>)
    ensures
        char_lists(lines@) == lines_of(text@),
{
    let feed: [char; 1] = ['\n'];
    let total: usize = text.len();
    let mut lines: Vec<Vec<char>> = Vec::new();
    let mut i: usize = 0;
    proof {
        assert(feed@ =~= seq!['\n']);
        assert(char_lists(lines@) + lines_from(text@, 0) =~= lines_of(text@));
    }
    while i < total
        invariant
            i <= total,
            total == text@.len(),
            feed@ == seq!['\n'],
            char_lists(lines@) + lines_from(text@, i as int) == lines_of(text@),
        decreases total - i,
    {
        let ghost before = char_lists(lines@);
        match find(text, feed.as_slice(), i) {
            Some(at) => {
                proof {
                    lemma_find_from(text@, seq!['\n'], i as int);
                    assert(occurs_at(text@, seq!['\n'], at as int));
                }
                let end: usize = if at > i && text[at - 1] == '\r' {
                    at - 1
                } else {
                    at
                };
                let line = slice_to_vec(slice_subrange(text, i, end));
                proof {
                    assert(line@ =~= without_return(text@.subrange(i as int, at as int)));
                }
                lines.push(line);
                proof {
                    assert(char_lists(lines@) =~= before.push(line@));
                    assert(before.push(line@) + lines_from(text@, at + 1) =~= before + (seq![
                        line@,
                    ] + lines_from(text@, at + 1)));
                }
                i = at + 1;
            },
            None => {
                let line = slice_to_vec(slice_subrange(text, i, total));
                lines.push(line);
                proof {
                    assert(char_lists(lines@) =~= before.push(line@));
                    assert(before.push(line@) + lines_from(text@, total as int) =~= before
                        + seq![line@]);
                }
                i = total;
            },
        }
    }
    proof {
        assert(char_lists(lines@) + Seq::<Seq<char>>::empty() =~= char_lists(lines@));
    }
    lines
}

/// How many characters of a line, from index `k` on and with `used` bytes
/// taken already, fit into `limit` bytes.
pub open spec fn fitting(line: Seq<char>, k: int, used: nat, limit: nat) -> int
    decreases line.len() - k,
{
    if 0 <= k < line.len() && used + utf8_width(line[k]) <= limit {
        fitting(line, k + 1, used + utf8_width(line[k]), limit)
    } else {
        k
    }
}

/// A line cut to `limit` bytes: the longest start of the line that takes no
/// more bytes in UTF-8.
pub open spec fn cut_line(line: Seq<char>, limit: nat) -> Seq<char> {
    line.take(fitting(line, 0, 0, limit))
}

/// Cuts a line to `limit` bytes, at the end of a character.
pub fn cut(line: &[char], limit: usize) -> (r: &[char])
    ensures
        r@ == cut_line(line@, limit as nat),
{
    let mut k: usize = 0;
    let mut used: usize = 0;
    while k < line.len() && char_width(line[k]) <= limit - used
        invariant
            k <= line@.len(),
            used <= limit,
            fitting(line@, 0, 0, limit as nat) == fitting(line@, k as int, used as nat, limit as nat),
        decreases line@.len() - k,
    {
        used = used + char_width(line[k]);
        k = k + 1;
    }
    let r = slice_subrange(line, 0, k);
    proof {
        assert(r@ =~= line@.take(k as int));
    }
    r
}

/// The note that stands for the lines that were left out.
pub open spec fn truncation_note() -> Seq<char> {
    "... (lines truncated) ..."@
}

/// The lines of a result cut to size: the first fifty, each cut to its
/// limit, and a note where lines were left out.
pub open spec fn truncated_lines(lines: Seq<Seq<char>>) -> Seq<Seq<char>> {
    let kept = if lines.len() > RESULT_MAX_LINES {
        RESULT_MAX_LINES as int
    } else {
        lines.len() as int
    };
    Seq::new(kept as nat, |i: int| cut_line(lines[i], LINE_MAX_CHARS as nat)) + (if lines.len()
        > RESULT_MAX_LINES {
        seq![truncation_note()]
    } else {
        Seq::empty()
    })
}

/// A result cut to size.
pub open spec fn truncated(text: Seq<char>) -> Seq<char> {
    joined(truncated_lines(lines_of(text)), "\n"@)
}

/// Cuts a list of lines to size and joins them.
fn truncate_lines(lines: &Vec<Vec<char>>) -> (out: Vec<char>)
    ensures
        out@ == joined(truncated_lines(char_lists(lines@)), "\n"@),
{
    let ghost model = char_lists(lines@);
    let kept: usize = if lines.len() > RESULT_MAX_LINES {
        RESULT_MAX_LINES
    } else {
        lines.len()
    };
    let mut result: Vec<Vec<char>> = Vec::new();
    let mut i: usize = 0;
    proof {
        assert(char_lists(result@) =~= Seq::new(
            0,
            |k: int| cut_line(model[k], LINE_MAX_CHARS as nat),
        ));
    }
    while i < kept
        invariant
            i <= kept,
            kept <= lines@.len(),
            model == char_lists(lines@),
            char_lists(result@) == Seq::new(
                i as nat,
                |k: int| cut_line(model[k], LINE_MAX_CHARS as nat),
            ),
        decreases kept - i,
    {
        let line = slice_to_vec(cut(lines[i].as_slice(), LINE_MAX_CHARS));
        let ghost before = char_lists(result@);
        result.push(line);
        proof {
            assert(char_lists(result@) =~= before.push(line@));
            assert(char_lists(result@) =~= Seq::new(
                (i + 1) as nat,
                |k: int| cut_line(model[k], LINE_MAX_CHARS as nat),
            ));
        }
        i = i + 1;
    }
    if lines.len() > RESULT_MAX_LINES {
        let ghost before = char_lists(result@);
        let note = to_chars("... (lines truncated) ...");
        result.push(note);
        proof {
            assert(char_lists(result@) =~= before + seq![truncation_note()]);
        }
    } else {
        proof {
            assert(char_lists(result@) + Seq::<Seq<char>>::empty() =~= char_lists(result@));
        }
    }
    proof {
        assert(char_lists(result@) =~= truncated_lines(model));
    }
    let newline = to_chars("\n");
    join(&result, newline.as_slice())
}

/// Whether a name fits a glob of one of the simple forms: `*` fits every
/// name; `*.ext` fits the names that end with `.ext`; `prefix*` fits the
/// names that begin with `prefix`; any other pattern fits the name that it is.
pub open spec fn glob_fits(name: Seq<char>, pattern: Seq<char>) -> bool {
    if pattern == seq!['*'] {
        true
    } else if begins_with(pattern, seq!['*', '.']) {
        ends_with(name, pattern.skip(1))
    } else if pattern.len() > 0 && pattern.last() == '*' {
        begins_with(name, pattern.drop_last())
    } else {
        name == pattern
    }
}

/// Whether a name fits a glob of one of the simple forms.
pub fn simple_glob_match(name: &str, pattern: &str) -> (r: bool)
    ensures
        r == glob_fits(name@, pattern@),
{
    let n = to_chars(name);
    let p = to_chars(pattern);
    let star: [char; 1] = ['*'];
    let star_dot: [char; 2] = ['*', '.'];
    proof {
        assert(star@ =~= seq!['*']);
        assert(star_dot@ =~= seq!['*', '.']);
    }
    let total: usize = p.len();
    if same_chars(p.as_slice(), star.as_slice()) {
        true
    } else if matches_at(p.as_slice(), star_dot.as_slice(), 0) {
        let suffix = slice_subrange(p.as_slice(), 1, total);
        proof {
            assert(suffix@ =~= p@.skip(1));
        }
        if suffix.len() > n.len() {
            false
        } else {
            matches_at(n.as_slice(), suffix, n.len() - suffix.len())
        }
    } else if total > 0 && p[total - 1] == '*' {
        let prefix = slice_subrange(p.as_slice(), 0, total - 1);
        proof {
            assert(prefix@ =~= p@.drop_last());
        }
        matches_at(n.as_slice(), prefix, 0)
    } else {
        same_chars(n.as_slice(), p.as_slice())
    }
}

/// `Path::join`: the path of `rel` below `root`, by the rules of the
/// platform; a `rel` that is absolute stands for itself.
#[verifier::external_body]
pub(crate) fn join_path(root: &str, rel: &str) -> (full: String) {
    std::path::Path::new(root).join(rel).to_string_lossy().into_owned()
}

/// The first index at or behind `i` that holds no slash.
pub open spec fn skip_slashes(s: Seq<char>, i: int) -> int
    decreases s.len() - i,
{
    if 0 <= i < s.len() && s[i] == '/' {
        skip_slashes(s, i + 1)
    } else {
        i
    }
}

/// The part of a virtual path below the project root: what stands behind
/// `/codebase` and the slashes that follow it. Nothing for a path that does
/// not begin with `/codebase`, which stands for itself.
pub open spec fn virtual_rel(path: Seq<char>) -> Option<Seq<char>> {
    if begins_with(path, codebase()) {
        Some(path.skip(skip_slashes(path, codebase().len() as int)))
    } else {
        None
    }
}

/// The part of a virtual path below the project root.
pub fn relative_part(path: &str) -> (r: Option<String>)
    ensures
        match r {
            Some(rel) => virtual_rel(path@) == Some(rel@),
            None => virtual_rel(path@) is None,
        },
{
    let chars = to_chars(path);
    let root = to_chars("/codebase");
    if !matches_at(chars.as_slice(), root.as_slice(), 0) {
        return None;
    }
    let total: usize = chars.len();
    let mut i: usize = root.len();
    while i < total && chars[i] == '/'
        invariant
            i <= total,
            total == chars@.len(),
            skip_slashes(chars@, root@.len() as int) == skip_slashes(chars@, i as int),
        decreases total - i,
    {
        i = i + 1;
    }
    let rel = slice_subrange(chars.as_slice(), i, total);
    proof {
        assert(rel@ =~= chars@.skip(i as int));
    }
    Some(from_chars(rel))
}

/// The levels of a tree where the command names none.
pub const DEFAULT_LEVELS: u64 = 3;

/// The most matches that a search for names gives.
pub const GLOB_MAX_MATCHES: usize = 100;

/// The depth below which a search for names does not go.
pub const GLOB_MAX_DEPTH: usize = 10;

/// What stands between the names of a path that was found: a character that
/// no name holds and that comes before every other, so that the paths are in
/// the order of their names.
pub open spec fn name_break() -> char {
    '\0'
}

/// Whether the kind of an entry passes the filter of a search for names:
/// `file` passes what is no directory, `directory` what is one, anything else
/// passes both.
pub open spec fn kind_passes(filter: Seq<char>, is_dir: bool) -> bool {
    if filter == "file"@ {
        !is_dir
    } else if filter == "directory"@ {
        is_dir
    } else {
        true
    }
}

/// What a search for names has found after one directory, given what it
/// had found before. A directory below the depth limit, or reached with the
/// most matches already, adds nothing.
pub open spec fn globbed(
    entries: Seq<DirEntryView>,
    pattern: Seq<char>,
    filter: Seq<char>,
    trail: Seq<char>,
    depth: nat,
    found: Seq<Seq<char>>,
) -> Seq<Seq<char>>
    decreases entries, 1nat, 0nat,
{
    if found.len() >= GLOB_MAX_MATCHES || depth > GLOB_MAX_DEPTH {
        found
    } else {
        globbed_from(entries, 0, pattern, filter, trail, depth, found)
    }
}

/// What a search for names has found after the entries from index `i` on.
/// An entry whose name fits the pattern and whose kind passes the filter is
/// found, under the names that lead to it. A directory that is not hidden is
/// searched too where the pattern holds `**`.
pub open spec fn globbed_from(
    entries: Seq<DirEntryView>,
    i: int,
    pattern: Seq<char>,
    filter: Seq<char>,
    trail: Seq<char>,
    depth: nat,
    found: Seq<Seq<char>>,
) -> Seq<Seq<char>>
    decreases entries, 0nat, entries.len() - i,
{
    if i < 0 || i >= entries.len() || found.len() >= GLOB_MAX_MATCHES {
        found
    } else {
        let here = trail + entries[i].name;
        let with_entry = if glob_fits(entries[i].name, pattern) && kind_passes(
            filter,
            entries[i].is_dir,
        ) {
            found.push(here)
        } else {
            found
        };
        let with_children = if entries[i].is_dir && !hidden(entries[i].name) && has_text(
            pattern,
            "**"@,
        ) {
            globbed(
                entries[i].children,
                pattern,
                filter,
                here.push(name_break()),
                depth + 1,
                with_entry,
            )
        } else {
            with_entry
        };
        globbed_from(entries, i + 1, pattern, filter, trail, depth, with_children)
    }
}

/// Whether the kind of an entry passes the filter.
fn passes(filter: &str, is_dir: bool) -> (r: bool)
    ensures
        r == kind_passes(filter@, is_dir),
{
    if same_text(filter, "file") {
        !is_dir
    } else if same_text(filter, "directory") {
        is_dir
    } else {
        true
    }
}

/// Searches one directory for names that fit a pattern.
pub fn glob_walk(
    entries: &Vec<DirEntry>,
    pattern: &str,
    filter: &str,
    trail: &Vec<char>,
    depth: usize,
    found: &mut Vec<Vec<char>>,
)
    ensures
        char_lists(final(found)@) == globbed(
            entries_view(entries@),
            pattern@,
            filter@,
            trail@,
            depth as nat,
            char_lists(old(found)@),
        ),
    decreases entries,
{
    if found.len() >= GLOB_MAX_MATCHES || depth > GLOB_MAX_DEPTH {
        return ;
    }
    let ghost view = entries_view(entries@);
    let pattern_chars = to_chars(pattern);
    let stars = to_chars("**");
    let deep = find(pattern_chars.as_slice(), stars.as_slice(), 0).is_some();
    let mut i: usize = 0;
    while i < entries.len() && found.len() < GLOB_MAX_MATCHES
        invariant
            i <= entries@.len(),
            depth <= GLOB_MAX_DEPTH,
            view == entries_view(entries@),
            deep == has_text(pattern@, "**"@),
            globbed_from(
                view,
                0,
                pattern@,
                filter@,
                trail@,
                depth as nat,
                char_lists(old(found)@),
            ) == globbed_from(
                view,
                i as int,
                pattern@,
                filter@,
                trail@,
                depth as nat,
                char_lists(found@),
            ),
        decreases entries@.len() - i,
    {
        let entry = &entries[i];
        proof {
            assert(view[i as int] == entry@);
        }
        let mut here: Vec<char> = Vec::new();
        append_chars(&mut here, trail.as_slice());
        append_str(&mut here, entry.name.as_str());
        if simple_glob_match(entry.name.as_str(), pattern) && passes(filter, entry.is_dir) {
            let ghost before = char_lists(found@);
            let mut copy: Vec<char> = Vec::new();
            append_chars(&mut copy, here.as_slice());
            found.push(copy);
            proof {
                assert(copy@ =~= trail@ + entry.name@);
                assert(char_lists(found@) =~= before.push(copy@));
            }
        }
        let name = to_chars(entry.name.as_str());
        let is_hidden = name.len() > 0 && name[0] == '.';
        if entry.is_dir && !is_hidden && deep {
            here.push('\0');
            proof {
                assert(here@ =~= (trail@ + entry.name@).push(name_break()));
                vstd::std_specs::vec::axiom_vec_index_decreases(*entries, i as int);
                assert(decreases_to!(*entries => entries[i as int]));
                assert(decreases_to!(entries[i as int] => entries[i as int].children));
                assert(entries_view(entry.children@) =~= entry@.children);
            }
            glob_walk(&entry.children, pattern, filter, &here, depth + 1, found);
        }
        i = i + 1;
    }
}

/// The paths that a search for names gives, in order: what was found below
/// the entries, by the names that lead to each, with a slash between the
/// names.
pub open spec fn glob_paths(
    entries: Seq<DirEntryView>,
    pattern: Seq<char>,
    filter: Seq<char>,
) -> Seq<Seq<char>> {
    let sorted = sorted_texts(globbed(entries, pattern, filter, Seq::empty(), 0, Seq::empty()));
    Seq::new(sorted.len(), |i: int| replaced(sorted[i], seq![name_break()], seq!['/']))
}

/// Searches the entries of a directory for names that fit a pattern, and
/// gives the paths below the directory of what was found, in the order of
/// their names.
pub fn glob_matches(entries: &Vec<DirEntry>, pattern: &str, filter: &str) -> (paths: Vec<
    Vec<char>,
>)
    ensures
        char_lists(paths@) == glob_paths(entries_view(entries@), pattern@, filter@),
{
    let mut found: Vec<Vec<char>> = Vec::new();
    let trail: Vec<char> = Vec::new();
    proof {
        assert(char_lists(found@) =~= Seq::<Seq<char>>::empty());
        assert(trail@ =~= Seq::<char>::empty());
    }
    glob_walk(entries, pattern, filter, &trail, 0, &mut found);
    let sorted = sort_texts(&found);
    let ghost model = char_lists(sorted@);
    let nul: [char; 1] = ['\0'];
    let slash: [char; 1] = ['/'];
    let mut paths: Vec<Vec<char>> = Vec::new();
    let mut i: usize = 0;
    proof {
        assert(nul@ =~= seq![name_break()]);
        assert(slash@ =~= seq!['/']);
        assert(char_lists(paths@) =~= Seq::new(
            0,
            |k: int| replaced(model[k], seq![name_break()], seq!['/']),
        ));
    }
    while i < sorted.len()
        invariant
            i <= sorted@.len(),
            model == char_lists(sorted@),
            nul@ == seq![name_break()],
            slash@ == seq!['/'],
            char_lists(paths@) == Seq::new(
                i as nat,
                |k: int| replaced(model[k], seq![name_break()], seq!['/']),
            ),
        decreases sorted@.len() - i,
    {
        let path = replace(sorted[i].as_slice(), nul.as_slice(), slash.as_slice());
        let ghost before = char_lists(paths@);
        paths.push(path);
        proof {
            assert(char_lists(paths@) =~= before.push(path@));
            assert(char_lists(paths@) =~= Seq::new(
                (i + 1) as nat,
                |k: int| replaced(model[k], seq![name_break()], seq!['/']),
            ));
        }
        i = i + 1;
    }
    paths
}

/// What a search for names shows: the paths, one on each line, or that
/// there are none.
pub open spec fn glob_text(paths: Seq<Seq<char>>) -> Seq<char> {
    if paths.len() == 0 {
        "(no matches)"@
    } else {
        joined(paths, "\n"@)
    }
}

/// Whether `text` is what a search for names shows of the given paths
/// below a directory, each taken below that directory by the platform's
/// rules for joining paths, with the project root replaced by `/codebase`.
pub open spec fn is_glob_text(text: Seq<char>, root: Seq<char>, rels: Seq<Seq<char>>) -> bool {
    exists|full: Seq<Seq<char>>|
        full.len() == rels.len() && text == glob_text(#[trigger] remapped(full, root))
}

/// Each text of a list with the project root replaced by `/codebase`.
pub open spec fn remapped(list: Seq<Seq<char>>, root: Seq<char>) -> Seq<Seq<char>> {
    Seq::new(list.len(), |i: int| replaced(list[i], root, codebase()))
}

/// One line of a long listing: the kind and fixed permissions, the size,
/// right-aligned in eight columns, and the name.
pub open spec fn long_line(is_dir: bool, size: u64, name: Seq<char>) -> Seq<char> {
    (if is_dir {
        "d"@
    } else {
        "-"@
    }) + "rwxr-xr-x "@ + padded(decimal(size as nat), 8) + " "@ + name
}

/// A text with blanks in front, up to the given width.
pub open spec fn padded(text: Seq<char>, width: nat) -> Seq<char> {
    if text.len() >= width {
        text
    } else {
        Seq::new((width - text.len()) as nat, |i: int| ' ') + text
    }
}

/// One line of a long listing.
pub fn format_long_line(is_dir: bool, size: u64, name: &str) -> (line: String)
    ensures
        line@ == long_line(is_dir, size, name@),
{
    let mut digits: Vec<char> = Vec::new();
    append_decimal(&mut digits, size);
    let mut out: Vec<char> = Vec::new();
    append_str(
        &mut out,
        if is_dir {
            "d"
        } else {
            "-"
        },
    );
    append_str(&mut out, "rwxr-xr-x ");
    let ghost head = out@;
    let mut i: usize = digits.len();
    proof {
        assert(head + Seq::new(0, |k: int| ' ') =~= head);
    }
    while i < 8
        invariant
            i <= 8 || i == digits@.len(),
            i >= digits@.len(),
            out@ == head + Seq::new((i - digits@.len()) as nat, |k: int| ' '),
        decreases 8 - i,
    {
        out.push(' ');
        proof {
            assert(out@ =~= head + Seq::new((i + 1 - digits@.len()) as nat, |k: int| ' '));
        }
        i = i + 1;
    }
    proof {
        assert(out@ + digits@ =~= head + padded(decimal(size as nat), 8));
    }
    append_chars(&mut out, digits.as_slice());
    append_str(&mut out, " ");
    append_str(&mut out, name);
    proof {
        assert(out@ =~= long_line(is_dir, size, name@));
    }
    from_chars(out.as_slice())
}

/// The lines of a file from a first to a last line, each behind its number
/// and a colon. Lines are counted from 1; without a first line the first is
/// meant, without a last the last; a range that holds no line gives nothing.
pub open spec fn numbered_lines(lines: Seq<Seq<char>>, start: Option<u64>, end: Option<u64>) -> Seq<
    Seq<char>,
> {
    let first = match start {
        Some(n) => if n == 0 {
            0
        } else {
            (n - 1) as int
        },
        None => 0,
    };
    let last = match end {
        Some(n) => if n < lines.len() {
            n as int
        } else {
            lines.len() as int
        },
        None => lines.len() as int,
    };
    if first < last {
        Seq::new((last - first) as nat, |i: int| decimal((first + i + 1) as nat) + ":"@ + lines[first + i])
    } else {
        Seq::empty()
    }
}

/// What reading a file shows: the numbered lines of the range, cut to size.
pub open spec fn file_text(content: Seq<char>, start: Option<u64>, end: Option<u64>) -> Seq<char> {
    truncated(joined(numbered_lines(lines_of(content), start, end), "\n"@))
}

/// Shows the lines of a file from a first to a last line, numbered and cut
/// to size.
pub fn show_file(content: &str, start_line: Option<u64>, end_line: Option<u64>) -> (text: String)
    ensures
        text@ == file_text(content@, start_line, end_line),
{
    let chars = to_chars(content);
    let lines = split_lines(chars.as_slice());
    let ghost model = char_lists(lines@);
    let total: usize = lines.len();
    let first: usize = match start_line {
        Some(n) => if n == 0 {
            0
        } else if n - 1 > total as u64 {
            total
        } else {
            (n - 1) as usize
        },
        None => 0,
    };
    let last: usize = match end_line {
        Some(n) => if n < total as u64 {
            n as usize
        } else {
            total
        },
        None => total,
    };
    let mut numbered: Vec<Vec<char>> = Vec::new();
    let ghost want = numbered_lines(model, start_line, end_line);
    if first < last {
        let mut i: usize = first;
        proof {
            assert(char_lists(numbered@) =~= want.take(0));
        }
        while i < last
            invariant
                first <= i <= last,
                last <= total,
                total == lines@.len(),
                model == char_lists(lines@),
                want == Seq::new(
                    (last - first) as nat,
                    |k: int| decimal((first + k + 1) as nat) + ":"@ + model[first + k],
                ),
                char_lists(numbered@) == want.take(i - first),
            decreases last - i,
        {
            let mut line: Vec<char> = Vec::new();
            append_decimal(&mut line, (i + 1) as u64);
            append_str(&mut line, ":");
            append_chars(&mut line, lines[i].as_slice());
            let ghost before = char_lists(numbered@);
            numbered.push(line);
            proof {
                assert(line@ =~= want[i - first]);
                assert(char_lists(numbered@) =~= before.push(line@));
                assert(want.take(i + 1 - first) =~= want.take(i - first).push(want[i - first]));
            }
            i = i + 1;
        }
        proof {
            assert(want.take(last - first) =~= want);
        }
    } else {
        proof {
            assert(char_lists(numbered@) =~= Seq::<Seq<char>>::empty());
            assert(want =~= Seq::<Seq<char>>::empty());
        }
    }
    let newline = to_chars("\n");
    let body = join(&numbered, newline.as_slice());
    let cut_lines = split_lines(body.as_slice());
    let out = truncate_lines(&cut_lines);
    from_chars(out.as_slice())
}

/// What is known of a file: whether it is a directory, and its size in
/// bytes.
#[derive(Debug, Copy, Clone, PartialEq, Eq)]
pub struct FileMeta {
    pub is_dir: bool,
    pub len: u64,
}

/// One name of a directory, as it was read, with what is known of the file,
/// where that could be found out.
#[derive(Debug, Clone, PartialEq)]
pub struct LsEntry {
    pub name: String,
    pub meta: Option<FileMeta>,
}

/// What a name of a directory stands for.
pub struct LsEntryView {
    pub name: Seq<char>,
    pub meta: Option<FileMeta>,
}

impl View for LsEntry {
    type V = LsEntryView;

    open spec fn view(&self) -> LsEntryView {
        LsEntryView { name: self.name@, meta: self.meta }
    }
}

/// What the names of a directory stand for.
pub open spec fn listing_view(listing: Seq<LsEntry>) -> Seq<LsEntryView> {
    Seq::new(listing.len(), |i: int| listing[i]@)
}

/// The names that a listing shows, as they were read: all of them, or those
/// that are not hidden.
pub open spec fn shown_names(listing: Seq<LsEntryView>, all: bool) -> Seq<Seq<char>>
    decreases listing.len(),
{
    if listing.len() == 0 {
        Seq::empty()
    } else if all || !hidden(listing.last().name) {
        shown_names(listing.drop_last(), all).push(listing.last().name)
    } else {
        shown_names(listing.drop_last(), all)
    }
}

/// What is known of the file of the first entry with the given name.
pub open spec fn meta_of(listing: Seq<LsEntryView>, name: Seq<char>) -> Option<FileMeta>
    decreases listing.len(),
{
    if listing.len() == 0 {
        None
    } else if listing[0].name == name {
        listing[0].meta
    } else {
        meta_of(listing.skip(1), name)
    }
}

/// The lines of a long listing for the given names: a line for every name
/// of whose file something is known.
pub open spec fn long_lines(listing: Seq<LsEntryView>, names: Seq<Seq<char>>) -> Seq<Seq<char>>
    decreases names.len(),
{
    if names.len() == 0 {
        Seq::empty()
    } else {
        let before = long_lines(listing, names.drop_last());
        match meta_of(listing, names.last()) {
            Some(meta) => before.push(long_line(meta.is_dir, meta.len, names.last())),
            None => before,
        }
    }
}

/// What a listing shows. The names are in order. The short form has one
/// name on each line; the long form starts with their count and has a line
/// for every name of whose file something is known, and shows the project
/// root as `/codebase`. Both are cut to size.
pub open spec fn listing_text(
    root: Seq<char>,
    listing: Seq<LsEntryView>,
    long_format: bool,
    all: bool,
) -> Seq<char> {
    let names = sorted_texts(shown_names(listing, all));
    if long_format {
        truncated(
            replaced(
                joined(
                    seq!["total "@ + decimal(names.len())] + long_lines(listing, names),
                    "\n"@,
                ),
                root,
                codebase(),
            ),
        )
    } else {
        truncated(joined(names, "\n"@))
    }
}

/// What is known of the file of the first entry with the given name.
fn find_meta(listing: &[LsEntry], name: &[char]) -> (r: Option<FileMeta>)
    ensures
        r == meta_of(listing_view(listing@), name@),
{
    let ghost view = listing_view(listing@);
    let mut i: usize = 0;
    proof {
        assert(view.skip(0) =~= view);
    }
    while i < listing.len()
        invariant
            i <= listing@.len(),
            view == listing_view(listing@),
            meta_of(view, name@) == meta_of(view.skip(i as int), name@),
        decreases listing@.len() - i,
    {
        let entry_name = to_chars(listing[i].name.as_str());
        proof {
            assert(view.skip(i as int)[0] == listing@[i as int]@);
            assert(view.skip(i as int).skip(1) =~= view.skip(i + 1));
        }
        if same_chars(entry_name.as_slice(), name) {
            return listing[i].meta;
        }
        i = i + 1;
    }
    None
}

/// The arguments with which the search program is run: no headings, line
/// numbers, at most fifty matches in a file, the pattern, the path, a glob
/// for everything to take in, and a negated glob for everything to leave out.
pub open spec fn search_arguments(
    pattern: Seq<char>,
    path: Seq<char>,
    included: Option<Seq<Seq<char>>>,
    excluded: Option<Seq<Seq<char>>>,
) -> Seq<Seq<char>> {
    seq!["--no-heading"@, "-n"@, "--max-count"@, "50"@, pattern, path] + (match included {
        Some(globs) => glob_arguments(globs, Seq::empty()),
        None => Seq::empty(),
    }) + (match excluded {
        Some(globs) => glob_arguments(globs, seq!['!']),
        None => Seq::empty(),
    })
}

/// For each glob the option `--glob` and the glob itself, behind a mark.
pub open spec fn glob_arguments(globs: Seq<Seq<char>>, mark: Seq<char>) -> Seq<Seq<char>>
    decreases globs.len(),
{
    if globs.len() == 0 {
        Seq::empty()
    } else {
        glob_arguments(globs.drop_last(), mark) + seq!["--glob"@, mark + globs.last()]
    }
}

/// Appends the arguments for a list of globs.
fn push_globs(args: &mut Vec<String>, globs: &Vec<String>, mark: &str)
    ensures
        texts_of(final(args)@) == texts_of(old(args)@) + glob_arguments(texts_of(globs@), mark@),
{
    let ghost before = texts_of(args@);
    let ghost model = texts_of(globs@);
    let mut i: usize = 0;
    proof {
        assert(model.take(0) =~= Seq::<Seq<char>>::empty());
        assert(before + glob_arguments(model.take(0), mark@) =~= before);
    }
    while i < globs.len()
        invariant
            i <= globs@.len(),
            model == texts_of(globs@),
            texts_of(args@) == before + glob_arguments(model.take(i as int), mark@),
        decreases globs@.len() - i,
    {
        proof {
            assert(model.take(i + 1).drop_last() =~= model.take(i as int));
            assert(model.take(i + 1).last() == globs@[i as int]@);
        }
        let mut glob: Vec<char> = Vec::new();
        append_str(&mut glob, mark);
        append_str(&mut glob, globs[i].as_str());
        let glob = from_chars(glob.as_slice());
        let ghost so_far = texts_of(args@);
        args.push("--glob".to_owned());
        args.push(glob);
        proof {
            assert(texts_of(args@) =~= so_far + seq!["--glob"@, mark@ + globs@[i as int]@]);
            assert(texts_of(args@) =~= before + glob_arguments(model.take(i + 1), mark@));
        }
        i = i + 1;
    }
    proof {
        assert(model.take(globs@.len() as int) =~= model);
    }
}

/// The arguments with which the search program is run.
pub fn rg_arguments(
    pattern: &str,
    path: &str,
    included: &Option<Vec<String>>,
    excluded: &Option<Vec<String>>,
) -> (args: Vec<String>)
    ensures
        texts_of(args@) == search_arguments(
            pattern@,
            path@,
            list_view(*included),
            list_view(*excluded),
        ),
{
    let mut args: Vec<String> = Vec::new();
    args.push("--no-heading".to_owned());
    args.push("-n".to_owned());
    args.push("--max-count".to_owned());
    args.push("50".to_owned());
    args.push(pattern.to_owned());
    args.push(path.to_owned());
    let ghost head = texts_of(args@);
    proof {
        assert(head =~= seq!["--no-heading"@, "-n"@, "--max-count"@, "50"@, pattern@, path@]);
    }
    match included {
        Some(globs) => {
            push_globs(&mut args, globs, "");
            proof {
                reveal_strlit("");
                assert(""@ =~= Seq::<char>::empty());
            }
        },
        None => {
            proof {
                assert(head + Seq::<Seq<char>>::empty() =~= head);
            }
        },
    }
    let ghost middle = texts_of(args@);
    match excluded {
        Some(globs) => {
            push_globs(&mut args, globs, "!");
            proof {
                reveal_strlit("!");
                assert("!"@ =~= seq!['!']);
            }
        },
        None => {
            proof {
                assert(middle + Seq::<Seq<char>>::empty() =~= middle);
            }
        },
    }
    args
}

/// Whether `args` are the arguments of a search below the real path that
/// `path` stands for: a path that does not begin with `/codebase` stands for
/// itself, any other for some path below the project root.
pub open spec fn is_search_arguments(
    args: Seq<Seq<char>>,
    pattern: Seq<char>,
    path: Seq<char>,
    included: Option<Seq<Seq<char>>>,
    excluded: Option<Seq<Seq<char>>>,
) -> bool {
    exists|below: Seq<char>|
        (virtual_rel(path) is None ==> below == path) && args == #[trigger] search_arguments(
            pattern,
            below,
            included,
            excluded,
        )
}

/// How the search program ended.
#[derive(Debug, Copy, Clone, PartialEq, Eq)]
pub enum SearchExit {
    /// It found matches, or at least it ended well.
    Success,
    /// It ended with the code that says that nothing matched.
    NoMatch,
    /// It ended in any other way.
    Failure,
}

/// What a search shows. After a search that ended well: its output, or
/// that nothing matched where the output is empty. After a failed search: what
/// it wrote of its failure, if anything. Nothing matched in every other case.
/// What is shown of the program's output has the project root replaced by
/// `/codebase` and is cut to size.
pub open spec fn search_text(
    root: Seq<char>,
    exit: SearchExit,
    stdout: Seq<char>,
    stderr: Seq<char>,
) -> Seq<char> {
    if exit == SearchExit::Success {
        truncated(
            replaced(
                if stdout.len() == 0 {
                    "(no matches)"@
                } else {
                    stdout
                },
                root,
                codebase(),
            ),
        )
    } else if exit == SearchExit::Failure && stderr.len() > 0 {
        truncated(replaced(stderr, root, codebase()))
    } else {
        "(no matches)"@
    }
}

/// What a tree shows: the path as it was asked for, the tree below it, with
/// the project root shown as `/codebase`, cut to size.
pub open spec fn tree_text(
    root: Seq<char>,
    path: Seq<char>,
    levels: Option<usize>,
    entries: Seq<DirEntryView>,
) -> Seq<char> {
    truncated(
        replaced(
            joined(
                walked(
                    TreeStyle::Command,
                    entries,
                    Seq::empty(),
                    match levels {
                        Some(n) => n as nat,
                        None => DEFAULT_LEVELS as nat,
                    },
                    0,
                    seq![path],
                ),
                "\n"@,
            ),
            root,
            codebase(),
        ),
    )
}

/// What stands for the results of a batch whose arguments are no object.
pub const INVALID_ARGS: &'static str = "(invalid args)";

/// What a command of an unknown type is answered with.
pub open spec fn unknown_text(kind: Seq<char>) -> Seq<char> {
    "Error: unknown command type '"@ + kind + "'"@
}

/// Answers a command of an unknown type.
pub fn unknown_command(kind: &str) -> (text: String)
    ensures
        text@ == unknown_text(kind@),
{
    let mut out: Vec<char> = Vec::new();
    append_str(&mut out, "Error: unknown command type '");
    append_str(&mut out, kind);
    append_str(&mut out, "'");
    from_chars(out.as_slice())
}

/// What a search below a path that does not exist is answered with.
pub open spec fn missing_path_text(path: Seq<char>) -> Seq<char> {
    "Error: path does not exist: "@ + path
}

/// Answers a search below a path that does not exist.
pub fn missing_path(path: &str) -> (text: String)
    ensures
        text@ == missing_path_text(path@),
{
    let mut out: Vec<char> = Vec::new();
    append_str(&mut out, "Error: path does not exist: ");
    append_str(&mut out, path);
    from_chars(out.as_slice())
}

/// The results of a batch, one behind the other, each wrapped in the tags
/// of its key.
pub open spec fn batch_text(results: Seq<(Seq<char>, Seq<char>)>) -> Seq<char>
    decreases results.len(),
{
    if results.len() == 0 {
        Seq::empty()
    } else {
        batch_text(results.drop_last()) + wrapped_result(results.last().0, results.last().1)
    }
}

/// What a list of results with their keys holds.
pub open spec fn results_view(results: Seq<(String, String)>) -> Seq<(Seq<char>, Seq<char>)> {
    Seq::new(results.len(), |i: int| (results[i].0@, results[i].1@))
}

/// Puts the results of a batch together: each result wrapped in the tags of
/// its key, in the order given.
pub fn join_results(results: &[(String, String)]) -> (text: String)
    ensures
        text@ == batch_text(results_view(results@)),
{
    let ghost model = results_view(results@);
    let mut out: Vec<char> = Vec::new();
    let mut i: usize = 0;
    proof {
        assert(model.take(0) =~= Seq::empty());
    }
    while i < results.len()
        invariant
            i <= results@.len(),
            model == results_view(results@),
            out@ == batch_text(model.take(i as int)),
        decreases results@.len() - i,
    {
        proof {
            assert(model.take(i + 1).drop_last() =~= model.take(i as int));
            assert(model.take(i + 1).last() == (results@[i as int].0@, results@[i as int].1@));
        }
        let wrapped = wrap_result(results[i].0.as_str(), results[i].1.as_str());
        append_str(&mut out, wrapped.as_str());
        i = i + 1;
    }
    proof {
        assert(model.take(results@.len() as int) =~= model);
    }
    from_chars(out.as_slice())
}

/// The executor of one session: the project root, and what the commands seen
/// so far searched for and read.
pub struct ToolExecutor {
    /// The project root that the virtual path `/codebase` stands for.
    pub root: String,
    pub collected_rg_patterns: Vec<String>,
    pub collected_files: Vec<String>,
}

impl ToolExecutor {
    /// An executor for the project at `project_root`, with nothing collected.
    pub fn new(project_root: &str) -> (exec: Self)
        ensures
            exec.root@ == project_root@,
            exec.collected_rg_patterns@.len() == 0,
            exec.collected_files@.len() == 0,
    {
        ToolExecutor {
            root: project_root.to_owned(),
            collected_rg_patterns: Vec::new(),
            collected_files: Vec::new(),
        }
    }

    /// The real path that a virtual path stands for: a path that begins with
    /// `/codebase` is taken below the project root, by the platform's rules
    /// for joining paths; any other path stands for itself.
    pub fn real_path(&self, virtual_path: &str) -> (path: String)
        ensures
            virtual_rel(virtual_path@) is None ==> path@ == virtual_path@,
    {
        match relative_part(virtual_path) {
            Some(rel) => join_path(self.root.as_str(), rel.as_str()),
            None => virtual_path.to_owned(),
        }
    }

    /// A text with the project root replaced by `/codebase` wherever it
    /// stands.
    pub fn remap(&self, text: &str) -> (mapped: String)
        ensures
            mapped@ == replaced(text@, self.root@, codebase()),
    {
        let chars = to_chars(text);
        let root = to_chars(self.root.as_str());
        let name = to_chars("/codebase");
        let out = replace(chars.as_slice(), root.as_slice(), name.as_slice());
        from_chars(out.as_slice())
    }

    /// A result cut to size: at most fifty lines, each of at most 250
    /// bytes, and a note where lines were left out.
    pub fn truncate(text: &str) -> (cut: String)
        ensures
            cut@ == truncated(text@),
    {
        let chars = to_chars(text);
        let lines = split_lines(chars.as_slice());
        let out = truncate_lines(&lines);
        from_chars(out.as_slice())
    }

    /// A text of the program's output, with the project root replaced by
    /// `/codebase` and cut to size.
    fn show(&self, text: &[char]) -> (out: Vec<char>)
        ensures
            out@ == truncated(replaced(text@, self.root@, codebase())),
    {
        let root = to_chars(self.root.as_str());
        let name = to_chars("/codebase");
        let mapped = replace(text, root.as_slice(), name.as_slice());
        let lines = split_lines(mapped.as_slice());
        truncate_lines(&lines)
    }

    /// Shows a directory as a tree. `entries` holds what was read of the
    /// directory, or nothing where the path is no directory.
    pub fn tree(&self, path: &str, levels: Option<usize>, entries: Option<&Vec<DirEntry>>) -> (text:
        String)
        ensures
            text@ == (match entries {
                Some(entries) => tree_text(self.root@, path@, levels, entries_view(entries@)),
                None => "Error: dir not found: "@ + path@,
            }),
    {
        match entries {
            Some(entries) => {
                let depth: usize = match levels {
                    Some(n) => n,
                    None => DEFAULT_LEVELS as usize,
                };
                let lines = tree_lines(TreeStyle::Command, path, entries, depth);
                let newline = to_chars("\n");
                let text = join(&lines, newline.as_slice());
                let out = self.show(text.as_slice());
                from_chars(out.as_slice())
            },
            None => {
                let mut out: Vec<char> = Vec::new();
                append_str(&mut out, "Error: dir not found: ");
                append_str(&mut out, path);
                from_chars(out.as_slice())
            },
        }
    }

    /// Searches a directory for names that fit a glob. `entries` holds what
    /// was read of the directory, or nothing where it could not be read. What
    /// was found is shown by its path, in order, with the project root shown as
    /// `/codebase`.
    pub fn glob(
        &self,
        pattern: &str,
        path: &str,
        type_filter: Option<&str>,
        entries: Option<&Vec<DirEntry>>,
    ) -> (text: String)
        ensures
            match entries {
                Some(entries) => is_glob_text(
                    text@,
                    self.root@,
                    glob_paths(
                        entries_view(entries@),
                        pattern@,
                        match type_filter {
                            Some(filter) => filter@,
                            None => "all"@,
                        },
                    ),
                ),
                None => text@ == "(no matches)"@,
            },
    {
        let entries = match entries {
            Some(entries) => entries,
            None => {
                return "(no matches)".to_owned();
            },
        };
        let filter = match type_filter {
            Some(filter) => filter,
            None => "all",
        };
        let rels = glob_matches(entries, pattern, filter);
        let start = self.real_path(path);
        let root = to_chars(self.root.as_str());
        let name = to_chars("/codebase");
        let mut shown: Vec<Vec<char>> = Vec::new();
        let ghost mut full: Seq<Seq<char>> = Seq::empty();
        let mut i: usize = 0;
        proof {
            assert(char_lists(shown@) =~= remapped(full, self.root@));
        }
        while i < rels.len()
            invariant
                i <= rels@.len(),
                full.len() == i,
                root@ == self.root@,
                name@ == codebase(),
                char_lists(shown@) == remapped(full, self.root@),
            decreases rels@.len() - i,
        {
            let rel = from_chars(rels[i].as_slice());
            let path = join_path(start.as_str(), rel.as_str());
            let chars = to_chars(path.as_str());
            let mapped = replace(chars.as_slice(), root.as_slice(), name.as_slice());
            let ghost before = char_lists(shown@);
            shown.push(mapped);
            proof {
                full = full.push(path@);
                assert(char_lists(shown@) =~= before.push(mapped@));
                assert(char_lists(shown@) =~= remapped(full, self.root@));
            }
            i = i + 1;
        }
        if shown.len() == 0 {
            return "(no matches)".to_owned();
        }
        let newline = to_chars("\n");
        let out = join(&shown, newline.as_slice());
        from_chars(out.as_slice())
    }

    /// Lists a directory. `listing` holds the names that were read, with
    /// what is known of their files, or nothing where the directory could not
    /// be read.
    pub fn ls(&self, path: &str, long_format: bool, all: bool, listing: Option<&[LsEntry]>) -> (text:
        String)
        ensures
            text@ == (match listing {
                Some(listing) => listing_text(
                    self.root@,
                    listing_view(listing@),
                    long_format,
                    all,
                ),
                None => "Error: dir not found: "@ + path@,
            }),
    {
        let listing = match listing {
            Some(listing) => listing,
            None => {
                let mut out: Vec<char> = Vec::new();
                append_str(&mut out, "Error: dir not found: ");
                append_str(&mut out, path);
                return from_chars(out.as_slice());
            },
        };
        let ghost view = listing_view(listing@);
        let mut names: Vec<Vec<char>> = Vec::new();
        let mut i: usize = 0;
        proof {
            assert(view.take(0) =~= Seq::<LsEntryView>::empty());
            assert(char_lists(names@) =~= Seq::<Seq<char>>::empty());
        }
        while i < listing.len()
            invariant
                i <= listing@.len(),
                view == listing_view(listing@),
                char_lists(names@) == shown_names(view.take(i as int), all),
            decreases listing@.len() - i,
        {
            proof {
                assert(view.take(i + 1).drop_last() =~= view.take(i as int));
                assert(view.take(i + 1).last() == listing@[i as int]@);
            }
            let name = to_chars(listing[i].name.as_str());
            if all || !(name.len() > 0 && name[0] == '.') {
                let ghost before = char_lists(names@);
                names.push(name);
                proof {
                    assert(char_lists(names@) =~= before.push(name@));
                }
            }
            i = i + 1;
        }
        proof {
            assert(view.take(listing@.len() as int) =~= view);
        }
        let sorted = sort_texts(&names);
        let newline = to_chars("\n");
        if !long_format {
            let text = join(&sorted, newline.as_slice());
            let lines = split_lines(text.as_slice());
            let out = truncate_lines(&lines);
            return from_chars(out.as_slice());
        }
        let ghost model = char_lists(sorted@);
        let mut lines: Vec<Vec<char>> = Vec::new();
        let mut head: Vec<char> = Vec::new();
        append_str(&mut head, "total ");
        append_decimal(&mut head, sorted.len() as u64);
        lines.push(head);
        let mut k: usize = 0;
        proof {
            assert(model.take(0) =~= Seq::<Seq<char>>::empty());
            assert(char_lists(lines@) =~= seq!["total "@ + decimal(model.len())] + long_lines(
                view,
                model.take(0),
            ));
        }
        while k < sorted.len()
            invariant
                k <= sorted@.len(),
                view == listing_view(listing@),
                model == char_lists(sorted@),
                char_lists(lines@) == seq!["total "@ + decimal(model.len())] + long_lines(
                    view,
                    model.take(k as int),
                ),
            decreases sorted@.len() - k,
        {
            proof {
                assert(model.take(k + 1).drop_last() =~= model.take(k as int));
                assert(model.take(k + 1).last() == sorted@[k as int]@);
            }
            match find_meta(listing, sorted[k].as_slice()) {
                Some(meta) => {
                    let name = from_chars(sorted[k].as_slice());
                    let line = format_long_line(meta.is_dir, meta.len, name.as_str());
                    let ghost before = char_lists(lines@);
                    lines.push(to_chars(line.as_str()));
                    proof {
                        assert(char_lists(lines@) =~= before.push(line@));
                        assert(char_lists(lines@) =~= seq!["total "@ + decimal(model.len())]
                            + long_lines(view, model.take(k + 1)));
                    }
                },
                None => {},
            }
            k = k + 1;
        }
        proof {
            assert(model.take(sorted@.len() as int) =~= model);
        }
        let text = join(&lines, newline.as_slice());
        let out = self.show(text.as_slice());
        from_chars(out.as_slice())
    }

    /// Shows a file. `content` holds what was read of it, or nothing where
    /// it could not be read.
    pub fn readfile(
        &self,
        file: &str,
        start_line: Option<u64>,
        end_line: Option<u64>,
        content: Option<&str>,
    ) -> (text: String)
        ensures
            text@ == (match content {
                Some(content) => file_text(content@, start_line, end_line),
                None => "Error: file not found: "@ + file@,
            }),
    {
        match content {
            Some(content) => show_file(content, start_line, end_line),
            None => {
                let mut out: Vec<char> = Vec::new();
                append_str(&mut out, "Error: file not found: ");
                append_str(&mut out, file);
                from_chars(out.as_slice())
            },
        }
    }

    /// Takes up a search: notes the pattern among what the executor has
    /// collected, and gives the arguments with which the search program is to
    /// be run below the real path that `path` stands for.
    pub fn rg(
        &mut self,
        pattern: &str,
        path: &str,
        included: &Option<Vec<String>>,
        excluded: &Option<Vec<String>>,
    ) -> (args: Vec<String>)
        ensures
            final(self).root == old(self).root,
            final(self).collected_files == old(self).collected_files,
            texts_of(final(self).collected_rg_patterns@) == texts_of(
                old(self).collected_rg_patterns@,
            ).push(pattern@),
            is_search_arguments(
                texts_of(args@),
                pattern@,
                path@,
                list_view(*included),
                list_view(*excluded),
            ),
    {
        let ghost before = texts_of(self.collected_rg_patterns@);
        self.collected_rg_patterns.push(pattern.to_owned());
        proof {
            assert(texts_of(self.collected_rg_patterns@) =~= before.push(pattern@));
        }
        let below = self.real_path(path);
        let args = rg_arguments(pattern, below.as_str(), included, excluded);
        proof {
            assert(texts_of(args@) == search_arguments(
                pattern@,
                below@,
                list_view(*included),
                list_view(*excluded),
            ));
        }
        args
    }

    /// Reads the command that a JSON object asks for, so that it can be
    /// run.
    pub fn exec_command(&self, cmd: &JsonValue) -> (command: Command)
        ensures
            command@ == command_of(cmd@),
    {
        read_command(cmd)
    }

    /// Shows what a search gave, from how the search program ended and
    /// what it wrote.
    pub fn rg_output(&self, exit: SearchExit, stdout: &str, stderr: &str) -> (text: String)
        ensures
            text@ == search_text(self.root@, exit, stdout@, stderr@),
    {
        match exit {
            SearchExit::Success => {
                let found = if stdout.is_empty() {
                    to_chars("(no matches)")
                } else {
                    to_chars(stdout)
                };
                let out = self.show(found.as_slice());
                from_chars(out.as_slice())
            },
            SearchExit::Failure => {
                if stderr.is_empty() {
                    "(no matches)".to_owned()
                } else {
                    let said = to_chars(stderr);
                    let out = self.show(said.as_slice());
                    from_chars(out.as_slice())
                }
            },
            SearchExit::NoMatch => "(no matches)".to_owned(),
        }
    }

    /// Takes up a batch of commands: gives the members of `args` whose key
    /// begins with `command`, in the order of their keys, so that each can be
    /// run and its result be put under its key. The patterns searched for and
    /// the files read are added to what the executor has collected. `None`,
    /// and nothing collected, where `args` is no object.
    pub fn exec_tool_call(&mut self, args: &JsonValue) -> (plan: Option<Vec<(String, JsonValue)>>)
        ensures
            final(self).root == old(self).root,
            match args@.members() {
                Some(members) => {
                    &&& plan is Some
                    &&& members_view(plan->0@) == command_members(members)
                    &&& texts_of(final(self).collected_rg_patterns@) == texts_of(
                        old(self).collected_rg_patterns@,
                    ) + patterns_among(command_members(members))
                    &&& texts_of(final(self).collected_files@) == texts_of(
                        old(self).collected_files@,
                    ) + files_among(command_members(members))
                },
                None => plan is None && *final(self) == *old(self),
            },
    {
        let members = match args.as_object() {
            Some(members) => members,
            None => {
                return None;
            },
        };
        let ordered = order_commands(members);
        let ghost model = borrowed_view(ordered@);
        let ghost patterns_before = texts_of(self.collected_rg_patterns@);
        let ghost files_before = texts_of(self.collected_files@);
        let mut plan: Vec<(String, JsonValue)> = Vec::new();
        let mut i: usize = 0;
        proof {
            assert(model.take(0) =~= Seq::empty());
            assert(patterns_before + patterns_among(model.take(0)) =~= patterns_before);
            assert(files_before + files_among(model.take(0)) =~= files_before);
            assert(members_view(plan@) =~= model.take(0));
        }
        while i < ordered.len()
            invariant
                i <= ordered@.len(),
                self.root == old(self).root,
                model == borrowed_view(ordered@),
                members_view(plan@) == model.take(i as int),
                texts_of(self.collected_rg_patterns@) == patterns_before + patterns_among(
                    model.take(i as int),
                ),
                texts_of(self.collected_files@) == files_before + files_among(
                    model.take(i as int),
                ),
            decreases ordered@.len() - i,
        {
            let (key, cmd) = ordered[i];
            proof {
                assert(model.take(i + 1).drop_last() =~= model.take(i as int));
                assert(model.take(i + 1).last() == (key@, cmd@));
            }
            let kind = cmd.get_str("type");
            let is_search = match kind {
                Some(kind) => same_text(kind, "rg"),
                None => false,
            };
            let is_read = match kind {
                Some(kind) => same_text(kind, "readfile"),
                None => false,
            };
            if is_search {
                match cmd.get_str("pattern") {
                    Some(pattern) => {
                        let ghost before = texts_of(self.collected_rg_patterns@);
                        self.collected_rg_patterns.push(pattern.to_owned());
                        proof {
                            assert(texts_of(self.collected_rg_patterns@) =~= before.push(
                                pattern@,
                            ));
                            assert(texts_of(self.collected_rg_patterns@) =~= patterns_before
                                + patterns_among(model.take(i + 1)));
                        }
                    },
                    None => {},
                }
            }
            if is_read {
                match cmd.get_str("file") {
                    Some(file) => {
                        let ghost before = texts_of(self.collected_files@);
                        self.collected_files.push(file.to_owned());
                        proof {
                            assert(texts_of(self.collected_files@) =~= before.push(file@));
                            assert(texts_of(self.collected_files@) =~= files_before + files_among(
                                model.take(i + 1),
                            ));
                        }
                    },
                    None => {},
                }
            }
            let ghost plan_before = members_view(plan@);
            let copy = cmd.duplicate();
            plan.push((key.clone(), copy));
            proof {
                assert(members_view(plan@) =~= plan_before.push((key@, copy@)));
                assert(members_view(plan@) =~= model.take(i + 1));
            }
            i = i + 1;
        }
        proof {
            assert(model.take(ordered@.len() as int) =~= model);
        }
        Some(plan)
    }
}

} // verus!
