//! The text that a search hands back to the host: the files and line ranges
//! of the model's final answer, or what was gathered when the turns ran out.

use crate::executor::join_path;
use crate::pattern::{captures_of, find_captures, spans_view, Spans};
use crate::text::{
    append_chars, append_decimal, append_str, char_lists, decimal, distinct, distinct_texts,
    from_chars, has_bytes, join, joined, replace, replaced, texts_of, to_chars, utf8_len,
};
use vstd::prelude::*;
use vstd::slice::{slice_subrange, slice_to_vec};

verus! {

/// The pattern of one file element: its path and what stands inside it.
pub open spec fn file_pattern() -> Seq<char> {
    "<file\\s+path=\"([^\"]+)\">([\\s\\S]*?)</file>"@
}

/// The pattern of one range element: its first and its last line.
pub open spec fn range_pattern() -> Seq<char> {
    "<range>(\\d+)-(\\d+)</range>"@
}

/// The virtual directory that stands for the project root in paths.
pub open spec fn virtual_root() -> Seq<char> {
    "/codebase/"@
}

/// The text that a span covers; nothing where the span does not fit.
pub open spec fn span_text(text: Seq<char>, span: Option<(usize, usize)>) -> Seq<char> {
    match span {
        Some((a, b)) => if a <= b <= text.len() {
            text.subrange(a as int, b as int)
        } else {
            Seq::empty()
        },
        None => Seq::empty(),
    }
}

/// Group `k` of a match, as text; nothing where the match has no such group.
pub open spec fn group_text(text: Seq<char>, m: Spans, k: int) -> Seq<char> {
    if 0 <= k < m.len() {
        span_text(text, m[k])
    } else {
        Seq::empty()
    }
}

/// Group `k` of a match, as text.
fn group(text: &[char], m: &Vec<Option<(usize, usize)>>, k: usize) -> (r: Vec<char>)
    ensures
        r@ == group_text(text@, m@, k as int),
{
    if k < m.len() {
        match m[k] {
            Some((a, b)) => {
                if a <= b && b <= text.len() {
                    return slice_to_vec(slice_subrange(text, a, b));
                }
            },
            None => {},
        }
    }
    Vec::new()
}

/// One range as the answer shows it: `L`, the first line, a hyphen, the last
/// line.
pub open spec fn range_label(body: Seq<char>, m: Spans) -> Seq<char> {
    "L"@ + group_text(body, m, 1) + "-"@ + group_text(body, m, 2)
}

/// The labels of the matches of the range pattern, in order.
pub open spec fn range_labels(body: Seq<char>, found: Seq<Spans>) -> Seq<Seq<char>> {
    Seq::new(found.len(), |i: int| range_label(body, found[i]))
}

/// The ranges of one file element, as the answer shows them: the labels,
/// with a comma and a blank between each two.
pub open spec fn ranges_text(body: Seq<char>) -> Seq<char> {
    match captures_of(range_pattern(), body) {
        Some(found) => joined(range_labels(body, found), ", "@),
        None => Seq::empty(),
    }
}

/// The ranges of one file element, as the answer shows them.
pub fn ranges_of(body: &[char]) -> (r: Vec<char>)
    ensures
        r@ == ranges_text(body@),
{
    let found = match find_captures("<range>(\\d+)-(\\d+)</range>", body) {
        Some(found) => found,
        None => {
            return Vec::new();
        },
    };
    let ghost model = spans_view(found@);
    let mut labels: Vec<Vec<char>> = Vec::new();
    let mut i: usize = 0;
    proof {
        assert(char_lists(labels@) =~= range_labels(body@, model.take(0)));
    }
    while i < found.len()
        invariant
            i <= found@.len(),
            model == spans_view(found@),
            char_lists(labels@) == range_labels(body@, model.take(i as int)),
        decreases found@.len() - i,
    {
        let mut label: Vec<char> = Vec::new();
        append_str(&mut label, "L");
        let first = group(body, &found[i], 1);
        append_chars(&mut label, first.as_slice());
        append_str(&mut label, "-");
        let last = group(body, &found[i], 2);
        append_chars(&mut label, last.as_slice());
        let ghost before = char_lists(labels@);
        labels.push(label);
        proof {
            assert(label@ =~= range_label(body@, model[i as int]));
            assert(char_lists(labels@) =~= before.push(label@));
            assert(char_lists(labels@) =~= range_labels(body@, model.take(i + 1)));
        }
        i = i + 1;
    }
    proof {
        assert(model.take(found@.len() as int) =~= model);
    }
    let sep = to_chars(", ");
    join(&labels, sep.as_slice())
}

/// One file of an answer: its path below the project root, and its ranges.
pub open spec fn answer_entry(xml: Seq<char>, m: Spans) -> (Seq<char>, Seq<char>) {
    (
        replaced(group_text(xml, m, 1), virtual_root(), Seq::empty()),
        ranges_text(group_text(xml, m, 2)),
    )
}

/// The files that an answer names, in order. An answer in which the file
/// pattern cannot be searched names none.
pub open spec fn answer_entries(xml: Seq<char>) -> Seq<(Seq<char>, Seq<char>)> {
    match captures_of(file_pattern(), xml) {
        Some(found) => Seq::new(found.len(), |i: int| answer_entry(xml, found[i])),
        None => Seq::empty(),
    }
}

/// What a list of pairs of texts holds.
pub open spec fn pairs_view(list: Seq<(Vec<char>, Vec<char>)>) -> Seq<(Seq<char>, Seq<char>)> {
    list.map_values(|p: (Vec<char>, Vec<char>)| (p.0@, p.1@))
}

/// Reads the files that an answer names: for each file element its path,
/// without the virtual root, and its ranges.
pub fn read_answer(xml: &[char]) -> (entries: Vec<(Vec<char>, Vec<char>)>)
    ensures
        pairs_view(entries@) == answer_entries(xml@),
{
    let mut entries: Vec<(Vec<char>, Vec<char>)> = Vec::new();
    let found = match find_captures("<file\\s+path=\"([^\"]+)\">([\\s\\S]*?)</file>", xml) {
        Some(found) => found,
        None => {
            proof {
                assert(pairs_view(entries@) =~= Seq::empty());
            }
            return entries;
        },
    };
    let ghost model = spans_view(found@);
    let root = to_chars("/codebase/");
    let nothing: Vec<char> = Vec::new();
    let mut i: usize = 0;
    proof {
        assert(nothing@ =~= Seq::<char>::empty());
        assert(pairs_view(entries@) =~= Seq::new(0, |k: int| answer_entry(xml@, model[k])));
    }
    while i < found.len()
        invariant
            i <= found@.len(),
            model == spans_view(found@),
            root@ == virtual_root(),
            nothing@ == Seq::<char>::empty(),
            pairs_view(entries@) == Seq::new(i as nat, |k: int| answer_entry(xml@, model[k])),
        decreases found@.len() - i,
    {
        let path = group(xml, &found[i], 1);
        let rel = replace(path.as_slice(), root.as_slice(), nothing.as_slice());
        let body = group(xml, &found[i], 2);
        let ranges = ranges_of(body.as_slice());
        let ghost before = pairs_view(entries@);
        entries.push((rel, ranges));
        proof {
            assert(pairs_view(entries@) =~= before.push((rel@, ranges@)));
            assert(pairs_view(entries@) =~= Seq::new(
                (i + 1) as nat,
                |k: int| answer_entry(xml@, model[k]),
            ));
        }
        i = i + 1;
    }
    entries
}

/// The texts of a list that take at least `least` bytes in UTF-8, in order.
pub open spec fn at_least(list: Seq<Seq<char>>, least: nat) -> Seq<Seq<char>>
    decreases list.len(),
{
    if list.len() == 0 {
        Seq::empty()
    } else {
        let before = at_least(list.drop_last(), least);
        if utf8_len(list.last()) >= least {
            before.push(list.last())
        } else {
            before
        }
    }
}

/// The search terms worth showing: each term once, in the order in which it
/// first came, and only terms of three bytes or more.
pub open spec fn keywords(patterns: Seq<Seq<char>>) -> Seq<Seq<char>> {
    at_least(distinct(patterns), 3)
}

/// The search terms worth showing.
pub fn keywords_of(patterns: &[String]) -> (out: Vec<Vec<char>>)
    ensures
        char_lists(out@) == keywords(texts_of(patterns@)),
{
    let all = distinct_texts(patterns);
    let ghost model = char_lists(all@);
    let mut out: Vec<Vec<char>> = Vec::new();
    let mut i: usize = 0;
    proof {
        assert(model.take(0) =~= Seq::<Seq<char>>::empty());
        assert(char_lists(out@) =~= Seq::<Seq<char>>::empty());
    }
    while i < all.len()
        invariant
            i <= all@.len(),
            model == char_lists(all@),
            char_lists(out@) == at_least(model.take(i as int), 3),
        decreases all@.len() - i,
    {
        proof {
            assert(model.take(i + 1).drop_last() =~= model.take(i as int));
            assert(model.take(i + 1).last() == all@[i as int]@);
        }
        if has_bytes(all[i].as_slice(), 3) {
            let ghost before = char_lists(out@);
            let item = slice_to_vec(all[i].as_slice());
            out.push(item);
            proof {
                assert(char_lists(out@) =~= before.push(all@[i as int]@));
            }
        }
        i = i + 1;
    }
    proof {
        assert(model.take(all@.len() as int) =~= model);
    }
    out
}

/// The lines that show the search terms: an empty line and the terms, or
/// nothing where there is no term to show.
pub open spec fn keyword_lines(patterns: Seq<Seq<char>>) -> Seq<Seq<char>> {
    if keywords(patterns).len() > 0 {
        seq![Seq::empty(), "grep keywords: "@ + joined(keywords(patterns), ", "@)]
    } else {
        Seq::empty()
    }
}

/// The line that shows the search's settings.
pub open spec fn config_line(tree_depth: u32, max_turns: u32) -> Seq<char> {
    "[config] tree_depth="@ + decimal(tree_depth as nat) + ", max_turns="@ + decimal(
        max_turns as nat,
    )
}

/// The line of file `number` of `count` in an answer.
pub open spec fn file_line(number: nat, count: nat, path: Seq<char>, ranges: Seq<char>) -> Seq<
    char,
> {
    "  ["@ + decimal(number) + "/"@ + decimal(count) + "] "@ + path + " ("@ + ranges + ")"@
}

/// The lines of the files of an answer.
pub open spec fn file_lines(files: Seq<(Seq<char>, Seq<char>)>) -> Seq<Seq<char>> {
    Seq::new(
        files.len(),
        |i: int| file_line((i + 1) as nat, files.len(), files[i].0, files[i].1),
    )
}

/// The lines of an answer: the files, or that there are none; the search
/// terms; the settings.
pub open spec fn answer_lines(
    files: Seq<(Seq<char>, Seq<char>)>,
    patterns: Seq<Seq<char>>,
    tree_depth: u32,
    max_turns: u32,
) -> Seq<Seq<char>> {
    (if files.len() > 0 {
        seq!["Found "@ + decimal(files.len()) + " relevant files."@, Seq::empty()] + file_lines(
            files,
        )
    } else {
        seq!["No relevant files found."@]
    }) + keyword_lines(patterns) + seq![Seq::empty(), config_line(tree_depth, max_turns)]
}

/// The text of an answer: its lines, one below the other.
pub open spec fn answer_text(
    files: Seq<(Seq<char>, Seq<char>)>,
    patterns: Seq<Seq<char>>,
    tree_depth: u32,
    max_turns: u32,
) -> Seq<char> {
    joined(answer_lines(files, patterns, tree_depth, max_turns), "\n"@)
}

/// Appends the lines that show the search terms.
fn push_keyword_lines(lines: &mut Vec<Vec<char>>, patterns: &[String])
    ensures
        char_lists(final(lines)@) == char_lists(old(lines)@) + keyword_lines(
            texts_of(patterns@),
        ),
{
    let ghost before = char_lists(lines@);
    let words = keywords_of(patterns);
    if words.len() > 0 {
        let sep = to_chars(", ");
        let list = join(&words, sep.as_slice());
        let mut line: Vec<char> = Vec::new();
        append_str(&mut line, "grep keywords: ");
        append_chars(&mut line, list.as_slice());
        let empty: Vec<char> = Vec::new();
        lines.push(empty);
        lines.push(line);
        proof {
            assert(empty@ =~= Seq::<char>::empty());
            assert(char_lists(lines@) =~= before + seq![empty@, line@]);
        }
    } else {
        proof {
            assert(before + Seq::<Seq<char>>::empty() =~= before);
        }
    }
}

/// Appends the empty line and the line of the settings, with `note` behind it.
fn push_config_lines(lines: &mut Vec<Vec<char>>, tree_depth: u32, max_turns: u32, note: &str)
    ensures
        char_lists(final(lines)@) == char_lists(old(lines)@) + seq![
            Seq::empty(),
            config_line(tree_depth, max_turns) + note@,
        ],
{
    let ghost before = char_lists(lines@);
    let mut line: Vec<char> = Vec::new();
    append_str(&mut line, "[config] tree_depth=");
    append_decimal(&mut line, tree_depth as u64);
    append_str(&mut line, ", max_turns=");
    append_decimal(&mut line, max_turns as u64);
    append_str(&mut line, note);
    let empty: Vec<char> = Vec::new();
    lines.push(empty);
    lines.push(line);
    proof {
        assert(empty@ =~= Seq::<char>::empty());
        assert(line@ =~= config_line(tree_depth, max_turns) + note@);
        assert(char_lists(lines@) =~= before + seq![empty@, line@]);
    }
}

/// Writes out an answer: how many files were found, a line for each with
/// its number, path and ranges, the search terms worth showing, and the
/// settings of the search.
pub fn render_answer(
    files: &Vec<(Vec<char>, Vec<char>)>,
    rg_patterns: &[String],
    tree_depth: u32,
    max_turns: u32,
) -> (text: String)
    ensures
        text@ == answer_text(
            pairs_view(files@),
            texts_of(rg_patterns@),
            tree_depth,
            max_turns,
        ),
{
    let ghost model = pairs_view(files@);
    let ghost patterns = texts_of(rg_patterns@);
    let mut lines: Vec<Vec<char>> = Vec::new();
    let n: usize = files.len();
    if n > 0 {
        let mut head: Vec<char> = Vec::new();
        append_str(&mut head, "Found ");
        append_decimal(&mut head, n as u64);
        append_str(&mut head, " relevant files.");
        let empty: Vec<char> = Vec::new();
        lines.push(head);
        lines.push(empty);
        proof {
            assert(empty@ =~= Seq::<char>::empty());
            assert(char_lists(lines@) =~= seq![head@, empty@] + file_lines(model).take(0));
        }
        let mut i: usize = 0;
        while i < n
            invariant
                i <= n,
                n == files@.len(),
                model == pairs_view(files@),
                char_lists(lines@) == seq![
                    "Found "@ + decimal(n as nat) + " relevant files."@,
                    Seq::empty(),
                ] + file_lines(model).take(i as int),
            decreases n - i,
        {
            let mut line: Vec<char> = Vec::new();
            append_str(&mut line, "  [");
            append_decimal(&mut line, (i + 1) as u64);
            append_str(&mut line, "/");
            append_decimal(&mut line, n as u64);
            append_str(&mut line, "] ");
            append_chars(&mut line, files[i].0.as_slice());
            append_str(&mut line, " (");
            append_chars(&mut line, files[i].1.as_slice());
            append_str(&mut line, ")");
            let ghost before = char_lists(lines@);
            lines.push(line);
            proof {
                assert(line@ =~= file_line((i + 1) as nat, n as nat, model[i as int].0, model[i as int].1));
                assert(file_lines(model).take(i + 1) =~= file_lines(model).take(i as int).push(
                    line@,
                ));
                assert(char_lists(lines@) =~= before.push(line@));
                assert(char_lists(lines@) =~= seq![
                    "Found "@ + decimal(n as nat) + " relevant files."@,
                    Seq::empty(),
                ] + file_lines(model).take(i + 1));
            }
            i = i + 1;
        }
        proof {
            assert(file_lines(model).take(n as int) =~= file_lines(model));
        }
    } else {
        let head = to_chars("No relevant files found.");
        lines.push(head);
        proof {
            assert(char_lists(lines@) =~= seq!["No relevant files found."@]);
        }
    }
    push_keyword_lines(&mut lines, rg_patterns);
    push_config_lines(&mut lines, tree_depth, max_turns, "");
    proof {
        reveal_strlit("");
        assert(""@ =~= Seq::<char>::empty());
        assert(config_line(tree_depth, max_turns) + ""@ =~= config_line(tree_depth, max_turns));
        assert(char_lists(lines@) =~= answer_lines(model, patterns, tree_depth, max_turns));
    }
    let newline = to_chars("\n");
    let out = join(&lines, newline.as_slice());
    from_chars(out.as_slice())
}

/// The files of an answer with their full paths in place of the paths below
/// the project root.
pub open spec fn with_paths(
    entries: Seq<(Seq<char>, Seq<char>)>,
    paths: Seq<Seq<char>>,
) -> Seq<(Seq<char>, Seq<char>)> {
    Seq::new(entries.len(), |i: int| (paths[i], entries[i].1))
}

/// Whether `text` is the answer `xml` written out, with some full path for
/// each of its files.
pub open spec fn is_answer_text(
    text: Seq<char>,
    xml: Seq<char>,
    patterns: Seq<Seq<char>>,
    tree_depth: u32,
    max_turns: u32,
) -> bool {
    exists|paths: Seq<Seq<char>>|
        paths.len() == answer_entries(xml).len() && text == answer_text(
            #[trigger] with_paths(answer_entries(xml), paths),
            patterns,
            tree_depth,
            max_turns,
        )
}

/// Formats the model's final answer for the host. The answer's file
/// elements give the files, in order; each path is taken below the project
/// root by the platform's rules for joining paths, and is shown with its
/// ranges.
pub fn format_answer(
    xml: &str,
    project_root: &str,
    rg_patterns: &[String],
    tree_depth: u32,
    max_turns: u32,
) -> (text: String)
    ensures
        is_answer_text(text@, xml@, texts_of(rg_patterns@), tree_depth, max_turns),
{
    let chars = to_chars(xml);
    let entries = read_answer(chars.as_slice());
    let ghost model = pairs_view(entries@);
    let mut files: Vec<(Vec<char>, Vec<char>)> = Vec::new();
    let ghost mut paths: Seq<Seq<char>> = Seq::empty();
    let mut i: usize = 0;
    proof {
        assert(pairs_view(files@) =~= with_paths(model.take(0), paths));
    }
    while i < entries.len()
        invariant
            i <= entries@.len(),
            model == pairs_view(entries@),
            paths.len() == i,
            pairs_view(files@) == with_paths(model.take(i as int), paths),
        decreases entries@.len() - i,
    {
        let rel = from_chars(entries[i].0.as_slice());
        let full = join_path(project_root, rel.as_str());
        let full_chars = to_chars(full.as_str());
        let ranges = slice_to_vec(entries[i].1.as_slice());
        let ghost before = pairs_view(files@);
        let ghost paths_before = paths;
        files.push((full_chars, ranges));
        proof {
            paths = paths.push(full@);
            assert(pairs_view(files@) =~= before.push((full@, ranges@)));
            assert(pairs_view(files@) =~= with_paths(model.take(i + 1), paths));
        }
        i = i + 1;
    }
    proof {
        assert(model.take(entries@.len() as int) =~= model);
    }
    render_answer(&files, rg_patterns, tree_depth, max_turns)
}

/// The files that were read, each once, in the order in which they were
/// first read, as paths below the project root.
pub open spec fn files_read(collected: Seq<Seq<char>>) -> Seq<Seq<char>> {
    Seq::new(
        distinct(collected).len(),
        |i: int| replaced(distinct(collected)[i], virtual_root(), Seq::empty()),
    )
}

/// The files that were read, each once, as paths below the project root.
pub fn read_files(collected: &[String]) -> (out: Vec<Vec<char>>)
    ensures
        char_lists(out@) == files_read(texts_of(collected@)),
{
    let all = distinct_texts(collected);
    let ghost model = char_lists(all@);
    let root = to_chars("/codebase/");
    let nothing: Vec<char> = Vec::new();
    let mut out: Vec<Vec<char>> = Vec::new();
    let mut i: usize = 0;
    proof {
        assert(nothing@ =~= Seq::<char>::empty());
        assert(char_lists(out@) =~= Seq::new(
            0,
            |k: int| replaced(model[k], virtual_root(), Seq::empty()),
        ));
    }
    while i < all.len()
        invariant
            i <= all@.len(),
            model == char_lists(all@),
            root@ == virtual_root(),
            nothing@ == Seq::<char>::empty(),
            char_lists(out@) == Seq::new(
                i as nat,
                |k: int| replaced(model[k], virtual_root(), Seq::empty()),
            ),
        decreases all@.len() - i,
    {
        let rel = replace(all[i].as_slice(), root.as_slice(), nothing.as_slice());
        let ghost before = char_lists(out@);
        out.push(rel);
        proof {
            assert(char_lists(out@) =~= before.push(rel@));
            assert(char_lists(out@) =~= Seq::new(
                (i + 1) as nat,
                |k: int| replaced(model[k], virtual_root(), Seq::empty()),
            ));
        }
        i = i + 1;
    }
    out
}

/// The line of file `number` of `count` in a partial result.
pub open spec fn partial_line(number: nat, count: nat, path: Seq<char>) -> Seq<char> {
    "  ["@ + decimal(number) + "/"@ + decimal(count) + "] "@ + path
}

/// The lines of a partial result: the files that were read, the search
/// terms, and the settings, marked as a fallback.
pub open spec fn partial_lines(
    paths: Seq<Seq<char>>,
    patterns: Seq<Seq<char>>,
    tree_depth: u32,
    max_turns: u32,
) -> Seq<Seq<char>> {
    seq![
        "Found "@ + decimal(paths.len()) + " files (max turns reached, partial result)."@,
        Seq::empty(),
    ] + Seq::new(paths.len(), |i: int| partial_line((i + 1) as nat, paths.len(), paths[i]))
        + keyword_lines(patterns) + seq![
        Seq::empty(),
        config_line(tree_depth, max_turns) + " (timeout fallback)"@,
    ]
}

/// The text that stands for an answer when the turns ran out: the partial
/// result, labelled as such, or, where no file was read, that there is none.
pub open spec fn partial_text(
    paths: Seq<Seq<char>>,
    patterns: Seq<Seq<char>>,
    tree_depth: u32,
    max_turns: u32,
) -> Seq<char> {
    if paths.len() == 0 {
        "Max turns reached without answer"@
    } else {
        joined(partial_lines(paths, patterns, tree_depth, max_turns), "\n"@)
    }
}

/// Writes out what was gathered when the turns ran out.
pub fn render_partial(
    paths: &Vec<Vec<char>>,
    rg_patterns: &[String],
    tree_depth: u32,
    max_turns: u32,
) -> (text: String)
    ensures
        text@ == partial_text(
            char_lists(paths@),
            texts_of(rg_patterns@),
            tree_depth,
            max_turns,
        ),
{
    let ghost model = char_lists(paths@);
    let ghost patterns = texts_of(rg_patterns@);
    let n: usize = paths.len();
    if n == 0 {
        return "Max turns reached without answer".to_owned();
    }
    let mut lines: Vec<Vec<char>> = Vec::new();
    let mut head: Vec<char> = Vec::new();
    append_str(&mut head, "Found ");
    append_decimal(&mut head, n as u64);
    append_str(&mut head, " files (max turns reached, partial result).");
    let empty: Vec<char> = Vec::new();
    lines.push(head);
    lines.push(empty);
    let ghost files = Seq::new(
        model.len(),
        |i: int| partial_line((i + 1) as nat, model.len(), model[i]),
    );
    proof {
        assert(empty@ =~= Seq::<char>::empty());
        assert(char_lists(lines@) =~= seq![head@, empty@] + files.take(0));
    }
    let mut i: usize = 0;
    while i < n
        invariant
            i <= n,
            n == paths@.len(),
            model == char_lists(paths@),
            files == Seq::new(
                model.len(),
                |i: int| partial_line((i + 1) as nat, model.len(), model[i]),
            ),
            char_lists(lines@) == seq![
                "Found "@ + decimal(n as nat) + " files (max turns reached, partial result)."@,
                Seq::empty(),
            ] + files.take(i as int),
        decreases n - i,
    {
        let mut line: Vec<char> = Vec::new();
        append_str(&mut line, "  [");
        append_decimal(&mut line, (i + 1) as u64);
        append_str(&mut line, "/");
        append_decimal(&mut line, n as u64);
        append_str(&mut line, "] ");
        append_chars(&mut line, paths[i].as_slice());
        let ghost before = char_lists(lines@);
        lines.push(line);
        proof {
            assert(line@ =~= partial_line((i + 1) as nat, n as nat, model[i as int]));
            assert(files.take(i + 1) =~= files.take(i as int).push(line@));
            assert(char_lists(lines@) =~= before.push(line@));
            assert(char_lists(lines@) =~= seq![
                "Found "@ + decimal(n as nat) + " files (max turns reached, partial result)."@,
                Seq::empty(),
            ] + files.take(i + 1));
        }
        i = i + 1;
    }
    proof {
        assert(files.take(n as int) =~= files);
    }
    push_keyword_lines(&mut lines, rg_patterns);
    push_config_lines(&mut lines, tree_depth, max_turns, " (timeout fallback)");
    proof {
        assert(char_lists(lines@) =~= partial_lines(model, patterns, tree_depth, max_turns));
    }
    let newline = to_chars("\n");
    let out = join(&lines, newline.as_slice());
    from_chars(out.as_slice())
}

/// Whether `text` is what was gathered written out, with some full path for
/// each file that was read.
pub open spec fn is_partial_text(
    text: Seq<char>,
    collected: Seq<Seq<char>>,
    patterns: Seq<Seq<char>>,
    tree_depth: u32,
    max_turns: u32,
) -> bool {
    exists|paths: Seq<Seq<char>>|
        paths.len() == files_read(collected).len() && text == #[trigger] partial_text(
            paths,
            patterns,
            tree_depth,
            max_turns,
        )
}

/// The answer that a search gives when its turns ran out: the files that
/// the model read, each once and taken below the project root by the
/// platform's rules for joining paths, with the search terms and the settings.
pub fn timeout_answer(
    project_root: &str,
    collected_files: &[String],
    rg_patterns: &[String],
    tree_depth: u32,
    max_turns: u32,
) -> (text: String)
    ensures
        is_partial_text(
            text@,
            texts_of(collected_files@),
            texts_of(rg_patterns@),
            tree_depth,
            max_turns,
        ),
{
    let rels = read_files(collected_files);
    let mut paths: Vec<Vec<char>> = Vec::new();
    let mut i: usize = 0;
    while i < rels.len()
        invariant
            i <= rels@.len(),
            paths@.len() == i,
        decreases rels@.len() - i,
    {
        let rel = from_chars(rels[i].as_slice());
        let full = join_path(project_root, rel.as_str());
        paths.push(to_chars(full.as_str()));
        i = i + 1;
    }
    let text = render_partial(&paths, rg_patterns, tree_depth, max_turns);
    proof {
        assert(char_lists(paths@).len() == files_read(
            texts_of(collected_files@),
        ).len());
    }
    text
}

} // verus!
