//! Regular expressions: the call into `regex_lite`, and the spans of its
//! matches as indices of characters.

use crate::text::{from_chars, index_at_offset, offset_index};
use vstd::prelude::*;

verus! {

/// One match: the span of the whole match, then of each capture group, in
/// the pattern's order; a group that took no part has none.
pub type Spans = Seq<Option<(usize, usize)>>;

/// What `regex_lite` finds of a pattern in a text: for each match, left to
/// right and not overlapping, the spans of the match and of its groups, as
/// byte offsets into the text's UTF-8 form. Nothing where the pattern does not
/// compile.
pub uninterp spec fn regex_spans(pattern: Seq<char>, text: Seq<char>) -> Option<Seq<Spans>>;

/// The spans held by a list of matches.
pub open spec fn spans_view(found: Seq<Vec<Option<(usize, usize)>>>) -> Seq<Spans> {
    found.map_values(|m: Vec<Option<(usize, usize)>>| m@)
}

/// `regex_lite::Regex::new`, then `Regex::captures_iter` over the text: the
/// spans of every match, or `None` where the pattern is refused.
#[verifier::external_body]
fn capture_spans(pattern: &str, text: &str) -> (r: Option<Vec<Vec<Option<(usize, usize)>>>>)
    ensures
        match r {
            Some(found) => regex_spans(pattern@, text@) == Some(spans_view(found@)),
            None => regex_spans(pattern@, text@) is None,
        },
{
    let re = regex_lite::Regex::new(pattern).ok()?;
    Some(
        re.captures_iter(text).map(
            |c| c.iter().map(|g| g.map(|m| (m.start(), m.end()))).collect(),
        ).collect(),
    )
}

/// A span of byte offsets as a span of character indices: where both ends
/// fall on the start of a character, or on the end of the text, and the span
/// does not run backwards.
pub open spec fn char_span(text: Seq<char>, span: Option<(usize, usize)>) -> Option<
    (usize, usize),
> {
    match span {
        Some((from, to)) => match (offset_index(text, from as nat), offset_index(text, to as nat)) {
            (Some(a), Some(b)) => if a <= b {
                Some((a as usize, b as usize))
            } else {
                None
            },
            _ => None,
        },
        None => None,
    }
}

/// The spans of one match as spans of character indices.
pub open spec fn char_spans(text: Seq<char>, spans: Spans) -> Spans {
    spans.map_values(|g: Option<(usize, usize)>| char_span(text, g))
}

/// The spans of every match as spans of character indices.
pub open spec fn all_char_spans(text: Seq<char>, found: Seq<Spans>) -> Seq<Spans> {
    found.map_values(|m: Spans| char_spans(text, m))
}

/// The matches of a pattern in a text, with their groups, as spans of
/// character indices.
pub open spec fn captures_of(pattern: Seq<char>, text: Seq<char>) -> Option<Seq<Spans>> {
    match regex_spans(pattern, text) {
        Some(found) => Some(all_char_spans(text, found)),
        None => None,
    }
}

/// Turns one span of byte offsets into a span of character indices.
fn to_char_span(text: &[char], span: Option<(usize, usize)>) -> (r: Option<(usize, usize)>)
    ensures
        r == char_span(text@, span),
        r matches Some((a, b)) ==> a <= b <= text@.len(),
{
    match span {
        Some((from, to)) => match (index_at_offset(text, from), index_at_offset(text, to)) {
            (Some(a), Some(b)) => if a <= b {
                Some((a, b))
            } else {
                None
            },
            _ => None,
        },
        None => None,
    }
}

/// Whether every span lies within a text of the given length.
pub open spec fn spans_within(found: Seq<Spans>, len: nat) -> bool {
    forall|i: int, j: int|
        0 <= i < found.len() && 0 <= j < found[i].len() ==> match #[trigger] found[i][j] {
            Some((a, b)) => a <= b <= len,
            None => true,
        }
}

/// Finds every match of `pattern` in `text`, with its capture groups, as
/// spans of character indices. `None` where the pattern does not compile.
pub fn find_captures(pattern: &str, text: &[char]) -> (r: Option<Vec<Vec<Option<(usize, usize)>>>>)
    ensures
        match r {
            Some(found) => captures_of(pattern@, text@) == Some(spans_view(found@)) && spans_within(
                spans_view(found@),
                text@.len(),
            ),
            None => captures_of(pattern@, text@) is None,
        },
{
    let as_string = from_chars(text);
    let found = match capture_spans(pattern, as_string.as_str()) {
        Some(found) => found,
        None => {
            return None;
        },
    };
    let ghost model = spans_view(found@);
    let mut out: Vec<Vec<Option<(usize, usize)>>> = Vec::new();
    let mut i: usize = 0;
    while i < found.len()
        invariant
            i <= found@.len(),
            model == spans_view(found@),
            spans_view(out@) == all_char_spans(text@, model.take(i as int)),
            spans_within(spans_view(out@), text@.len()),
        decreases found@.len() - i,
    {
        let m = &found[i];
        let mut groups: Vec<Option<(usize, usize)>> = Vec::new();
        let mut j: usize = 0;
        while j < m.len()
            invariant
                j <= m@.len(),
                groups@ == char_spans(text@, m@.take(j as int)),
                forall|k: int|
                    0 <= k < groups@.len() ==> match #[trigger] groups@[k] {
                        Some((a, b)) => a <= b <= text@.len(),
                        None => true,
                    },
            decreases m@.len() - j,
        {
            let span = to_char_span(text, m[j]);
            groups.push(span);
            proof {
                assert(m@.take(j + 1) =~= m@.take(j as int).push(m@[j as int]));
                assert(groups@ =~= char_spans(text@, m@.take(j + 1)));
            }
            j = j + 1;
        }
        proof {
            assert(m@.take(m@.len() as int) =~= m@);
        }
        let ghost before = spans_view(out@);
        out.push(groups);
        proof {
            assert(model.take(i + 1) =~= model.take(i as int).push(model[i as int]));
            assert(spans_view(out@) =~= before.push(groups@));
            assert(spans_view(out@) =~= all_char_spans(text@, model.take(i + 1)));
            assert forall|a: int, b: int|
                0 <= a < spans_view(out@).len() && 0 <= b < spans_view(out@)[a].len() implies match #[trigger] spans_view(
                out@,
            )[a][b] {
                Some((x, y)) => x <= y <= text@.len(),
                None => true,
            } by {
                if a < before.len() {
                    assert(spans_view(out@)[a] == before[a]);
                    assert(before[a][b] == spans_view(out@)[a][b]);
                } else {
                    assert(spans_view(out@)[a] == groups@);
                }
            }
        }
        i = i + 1;
    }
    proof {
        assert(model.take(found@.len() as int) =~= model);
    }
    Some(out)
}

} // verus!
