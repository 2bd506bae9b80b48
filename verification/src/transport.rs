//! The framing of messages from and to the host: header-framed or
//! line-delimited, found out once from the first line that is not blank.

use crate::text::{
    append_decimal, append_str, decimal, find, find_from, from_chars, lemma_find_from, occurs_at,
    to_chars, trim, trimmed,
};
use vstd::prelude::*;
use vstd::slice::slice_subrange;
use vstd::utf8::encode_utf8;

verus! {

/// How messages are framed.
#[derive(Debug, Copy, Clone, PartialEq, Eq)]
pub enum TransportMode {
    /// Headers, a blank line, then a body of the declared length.
    Lsp,
    /// One message per line.
    Line,
}

/// A letter in lower case; any other character as it is.
pub open spec fn ascii_lower(c: char) -> char {
    if 'A' <= c <= 'Z' {
        ((c as u8) + 32) as char
    } else {
        c
    }
}

/// A text with its letters in lower case.
pub open spec fn lowered(s: Seq<char>) -> Seq<char> {
    s.map_values(|c: char| ascii_lower(c))
}

/// Whether two texts are the same but for the case of their letters.
pub open spec fn same_ignoring_case(a: Seq<char>, b: Seq<char>) -> bool {
    lowered(a) == lowered(b)
}

/// A letter in lower case.
fn to_lower(c: char) -> (r: char)
    ensures
        r == ascii_lower(c),
{
    if 'A' <= c && c <= 'Z' {
        ((c as u8) + 32) as char
    } else {
        c
    }
}

/// Whether two texts are the same but for the case of their letters.
pub fn eq_ignore_case(a: &[char], b: &[char]) -> (r: bool)
    ensures
        r == same_ignoring_case(a@, b@),
{
    if a.len() != b.len() {
        return false;
    }
    let mut i: usize = 0;
    while i < a.len()
        invariant
            i <= a@.len(),
            a@.len() == b@.len(),
            lowered(a@).take(i as int) == lowered(b@).take(i as int),
        decreases a@.len() - i,
    {
        if to_lower(a[i]) != to_lower(b[i]) {
            proof {
                assert(lowered(a@)[i as int] != lowered(b@)[i as int]);
            }
            return false;
        }
        proof {
            assert(lowered(a@).take(i + 1) =~= lowered(a@).take(i as int).push(
                ascii_lower(a@[i as int]),
            ));
            assert(lowered(b@).take(i + 1) =~= lowered(b@).take(i as int).push(
                ascii_lower(b@[i as int]),
            ));
        }
        i = i + 1;
    }
    proof {
        assert(lowered(a@).take(a@.len() as int) =~= lowered(a@));
        assert(lowered(b@).take(b@.len() as int) =~= lowered(b@));
    }
    true
}

/// The name and the value of a header line: what stands before and behind
/// its first colon, without the white space around.
pub open spec fn header_parts(line: Seq<char>) -> Option<(Seq<char>, Seq<char>)> {
    match find_from(line, seq![':'], 0) {
        Some(at) => Some((trimmed(line.take(at)), trimmed(line.skip(at + 1)))),
        None => None,
    }
}

/// Whether a line is one of the headers that open a header-framed message:
/// the length or the type of the content.
pub open spec fn header_line(line: Seq<char>) -> bool {
    match header_parts(line) {
        Some((name, _)) => same_ignoring_case(name, "content-length"@) || same_ignoring_case(
            name,
            "content-type"@,
        ),
        None => false,
    }
}

/// Splits a header line into its name and its value.
fn split_header(line: &[char]) -> (r: Option<(&[char], &[char])>)
    ensures
        match r {
            Some((name, value)) => header_parts(line@) == Some((name@, value@)),
            None => header_parts(line@) is None,
        },
{
    let colon: [char; 1] = [':'];
    proof {
        assert(colon@ =~= seq![':']);
    }
    match find(line, colon.as_slice(), 0) {
        Some(at) => {
            proof {
                lemma_find_from(line@, seq![':'], 0);
                assert(occurs_at(line@, seq![':'], at as int));
            }
            let total: usize = line.len();
            let name = slice_subrange(line, 0, at);
            let value = slice_subrange(line, at + 1, total);
            proof {
                assert(name@ =~= line@.take(at as int));
                assert(value@ =~= line@.skip(at + 1));
            }
            Some((trim(name), trim(value)))
        },
        None => None,
    }
}

/// Whether a line is one of the headers that open a header-framed message.
pub fn is_header_line(line: &str) -> (r: bool)
    ensures
        r == header_line(line@),
{
    let chars = to_chars(line);
    match split_header(chars.as_slice()) {
        Some((name, _)) => {
            let length = to_chars("content-length");
            let kind = to_chars("content-type");
            eq_ignore_case(name, length.as_slice()) || eq_ignore_case(name, kind.as_slice())
        },
        None => false,
    }
}

/// Whether a character is a decimal digit.
pub open spec fn is_digit(c: char) -> bool {
    '0' <= c <= '9'
}

/// The number that a text of digits stands for.
pub open spec fn digits_value(s: Seq<char>) -> nat
    decreases s.len(),
{
    if s.len() == 0 {
        0
    } else {
        10 * digits_value(s.drop_last()) + ((s.last() as u32) - ('0' as u32)) as nat
    }
}

/// Whether a text is made of decimal digits alone.
pub open spec fn all_digits(s: Seq<char>) -> bool {
    forall|i: int| 0 <= i < s.len() ==> is_digit(#[trigger] s[i])
}

/// The digits of a text that is written as a number: the text without a plus
/// sign at its start.
pub open spec fn unsigned_digits(s: Seq<char>) -> Seq<char> {
    if s.len() > 0 && s[0] == '+' {
        s.skip(1)
    } else {
        s
    }
}

/// The length that a text declares: the value of its digits, where it is
/// made of at least one digit, with or without a plus sign in front, and the
/// value fits the machine's word.
pub open spec fn parsed_length(s: Seq<char>) -> Option<usize> {
    let digits = unsigned_digits(s);
    if digits.len() > 0 && all_digits(digits) && digits_value(digits) <= usize::MAX {
        Some(digits_value(digits) as usize)
    } else {
        None
    }
}

/// A longer text of digits stands for no smaller number.
pub proof fn lemma_digits_grow(s: Seq<char>, k: int)
    requires
        0 <= k <= s.len(),
        all_digits(s),
    ensures
        digits_value(s.take(k)) <= digits_value(s),
    decreases s.len() - k,
{
    if k < s.len() {
        assert(s.take(k + 1).drop_last() =~= s.take(k));
        assert(is_digit(s[k]));
        assert(s.take(k + 1).last() == s[k]);
        lemma_digits_grow(s, k + 1);
    } else {
        assert(s.take(k) =~= s);
    }
}

/// Reads a length out of a text.
pub fn parse_length(s: &[char]) -> (r: Option<usize>)
    ensures
        r == parsed_length(s@),
{
    let total: usize = s.len();
    let digits = if total > 0 && s[0] == '+' {
        slice_subrange(s, 1, total)
    } else {
        s
    };
    proof {
        assert(digits@ =~= unsigned_digits(s@));
    }
    if digits.len() == 0 {
        return None;
    }
    let mut n: usize = 0;
    let mut i: usize = 0;
    proof {
        assert(digits@.take(0) =~= Seq::<char>::empty());
    }
    while i < digits.len()
        invariant
            i <= digits@.len(),
            digits@ == unsigned_digits(s@),
            all_digits(digits@.take(i as int)),
            n == digits_value(digits@.take(i as int)),
        decreases digits@.len() - i,
    {
        let c = digits[i];
        if !('0' <= c && c <= '9') {
            proof {
                assert(!is_digit(digits@[i as int]));
            }
            return None;
        }
        let d: usize = ((c as u32) - ('0' as u32)) as usize;
        proof {
            assert(digits@.take(i + 1).drop_last() =~= digits@.take(i as int));
            assert(digits@.take(i + 1).last() == c);
            assert forall|k: int| 0 <= k < i + 1 implies is_digit(
                #[trigger] digits@.take(i + 1)[k],
            ) by {
                if k < i {
                    assert(digits@.take(i as int)[k] == digits@.take(i + 1)[k]);
                }
            }
        }
        if n > (usize::MAX - d) / 10 {
            proof {
                assert(digits_value(digits@.take(i + 1)) > usize::MAX);
                if all_digits(digits@) {
                    lemma_digits_grow(digits@, i + 1);
                }
            }
            return None;
        }
        n = n * 10 + d;
        i = i + 1;
    }
    proof {
        assert(digits@.take(digits@.len() as int) =~= digits@);
    }
    Some(n)
}

/// The length that a header line declares, where it is the header of the
/// content's length and its value is a length.
pub open spec fn declared_length(line: Seq<char>) -> Option<usize> {
    match header_parts(line) {
        Some((name, value)) => if same_ignoring_case(name, "content-length"@) {
            parsed_length(value)
        } else {
            None
        },
        None => None,
    }
}

/// Reads the length that a header line declares.
pub fn content_length(line: &[char]) -> (r: Option<usize>)
    ensures
        r == declared_length(line@),
{
    match split_header(line) {
        Some((name, value)) => {
            let length = to_chars("content-length");
            if eq_ignore_case(name, length.as_slice()) {
                parse_length(value)
            } else {
                None
            }
        },
        None => None,
    }
}

/// The least end behind which only line ends stand.
pub open spec fn drop_line_ends(s: Seq<char>, j: int) -> int
    decreases j,
{
    if 0 < j <= s.len() && (s[j - 1] == '\r' || s[j - 1] == '\n') {
        drop_line_ends(s, j - 1)
    } else {
        j
    }
}

/// A line without the carriage returns and line feeds at its end.
pub open spec fn without_line_end(s: Seq<char>) -> Seq<char> {
    s.take(drop_line_ends(s, s.len() as int))
}

/// Takes the carriage returns and line feeds off the end of a line.
pub fn strip_line_end(s: &[char]) -> (r: &[char])
    ensures
        r@ == without_line_end(s@),
{
    let mut end: usize = s.len();
    while end > 0 && (s[end - 1] == '\r' || s[end - 1] == '\n')
        invariant
            end <= s@.len(),
            drop_line_ends(s@, s@.len() as int) == drop_line_ends(s@, end as int),
        decreases end,
    {
        end = end - 1;
    }
    let r = slice_subrange(s, 0, end);
    proof {
        assert(r@ =~= s@.take(end as int));
    }
    r
}

/// What the reader of the host's input is to do next.
#[derive(Debug, Clone, PartialEq)]
pub enum LineAction {
    /// Read the next line and hand it over.
    ReadLine,
    /// Read exactly this many bytes: they are the body of one message.
    ReadBody(usize),
    /// This is one message.
    Deliver(String),
    /// The headers ended without declaring a length: there is no message.
    MissingLength,
}

/// What an action stands for.
pub enum LineActionView {
    ReadLine,
    ReadBody(usize),
    Deliver(Seq<char>),
    MissingLength,
}

impl View for LineAction {
    type V = LineActionView;

    open spec fn view(&self) -> LineActionView {
        match self {
            LineAction::ReadLine => LineActionView::ReadLine,
            LineAction::ReadBody(n) => LineActionView::ReadBody(*n),
            LineAction::Deliver(text) => LineActionView::Deliver(text@),
            LineAction::MissingLength => LineActionView::MissingLength,
        }
    }
}

/// The state of the host transport: the framing, once it is known, and what
/// the headers of the message being read have said so far.
#[derive(Debug, Copy, Clone, PartialEq)]
pub struct Transport {
    /// The framing; `None` until the first line that is not blank was seen.
    pub mode: Option<TransportMode>,
    /// The length that the headers read so far declare.
    pub content_length: Option<usize>,
    /// Whether a header of the message being read was seen.
    pub seen_header: bool,
}

/// The state and the action that follow from a state and one more line of
/// input. A blank line is passed over, except that it ends a block of headers.
/// The first line that is not blank settles the framing: a header of the
/// content's length or type makes it header-framed, any other line makes it
/// line-delimited and is itself a message. From then on the framing stays as
/// it is.
pub open spec fn step(state: Transport, raw: Seq<char>) -> (Transport, LineActionView) {
    let line = without_line_end(raw);
    let framed = state.mode == Some(TransportMode::Lsp) || (state.mode is None && header_line(
        line,
    ));
    if line.len() == 0 {
        if state.mode == Some(TransportMode::Lsp) && state.seen_header {
            (
                Transport { mode: state.mode, content_length: None, seen_header: false },
                match state.content_length {
                    Some(n) => LineActionView::ReadBody(n),
                    None => LineActionView::MissingLength,
                },
            )
        } else {
            (state, LineActionView::ReadLine)
        }
    } else if framed {
        (
            Transport {
                mode: Some(TransportMode::Lsp),
                content_length: match declared_length(line) {
                    Some(n) => Some(n),
                    None => state.content_length,
                },
                seen_header: true,
            },
            LineActionView::ReadLine,
        )
    } else {
        (
            Transport {
                mode: Some(TransportMode::Line),
                content_length: state.content_length,
                seen_header: state.seen_header,
            },
            LineActionView::Deliver(line),
        )
    }
}

/// The state after a run of lines of input.
pub open spec fn after_lines(state: Transport, lines: Seq<Seq<char>>) -> Transport
    decreases lines.len(),
{
    if lines.len() == 0 {
        state
    } else {
        step(after_lines(state, lines.drop_last()), lines.last()).0
    }
}

/// The first line that is not blank settles the framing: header-framed
/// where the line is a header of the content's length or type,
/// line-delimited where it is anything else.
pub proof fn lemma_mode_is_detected(state: Transport, raw: Seq<char>)
    requires
        state.mode is None,
        without_line_end(raw).len() > 0,
    ensures
        step(state, raw).0.mode == Some(
            if header_line(without_line_end(raw)) {
                TransportMode::Lsp
            } else {
                TransportMode::Line
            },
        ),
{
}

/// The framing, once it is settled, stays as it is, whatever input
/// follows.
pub proof fn lemma_mode_is_kept(state: Transport, lines: Seq<Seq<char>>)
    requires
        state.mode is Some,
    ensures
        after_lines(state, lines).mode == state.mode,
    decreases lines.len(),
{
    if lines.len() > 0 {
        lemma_mode_is_kept(state, lines.drop_last());
    }
}

impl Transport {
    /// The transport before any input: the framing is not known.
    pub fn new() -> (t: Self)
        ensures
            t.mode is None,
            t.content_length is None,
            !t.seen_header,
    {
        Transport { mode: None, content_length: None, seen_header: false }
    }

    /// Takes one line of input and says what to do next. The framing, once
    /// it is settled, is never changed.
    pub fn on_line(&mut self, raw: &str) -> (action: LineAction)
        ensures
            (*final(self), action@) == step(*old(self), raw@),
            old(self).mode is Some ==> final(self).mode == old(self).mode,
    {
        let chars = to_chars(raw);
        let line = strip_line_end(chars.as_slice());
        if line.len() == 0 {
            match (self.mode, self.seen_header) {
                (Some(TransportMode::Lsp), true) => {
                    let declared = self.content_length;
                    self.content_length = None;
                    self.seen_header = false;
                    match declared {
                        Some(n) => LineAction::ReadBody(n),
                        None => LineAction::MissingLength,
                    }
                },
                _ => LineAction::ReadLine,
            }
        } else {
            let line_text = from_chars(line);
            let framed = match self.mode {
                Some(TransportMode::Lsp) => true,
                Some(TransportMode::Line) => false,
                None => is_header_line(line_text.as_str()),
            };
            if framed {
                self.mode = Some(TransportMode::Lsp);
                match content_length(line) {
                    Some(n) => {
                        self.content_length = Some(n);
                    },
                    None => {},
                }
                self.seen_header = true;
                LineAction::ReadLine
            } else {
                self.mode = Some(TransportMode::Line);
                LineAction::Deliver(line_text)
            }
        }
    }

    /// The framing for output: the one found out from the input, or
    /// line-delimited where none was found out yet.
    pub fn output_mode(&self) -> (mode: TransportMode)
        ensures
            mode == (match self.mode {
                Some(mode) => mode,
                None => TransportMode::Line,
            }),
    {
        match self.mode {
            Some(mode) => mode,
            None => TransportMode::Line,
        }
    }
}

/// A message as it goes to the host: behind a header that declares its
/// length in bytes, or on a line of its own.
pub open spec fn framed_message(mode: TransportMode, payload: Seq<char>) -> Seq<char> {
    match mode {
        TransportMode::Lsp => "Content-Length: "@ + decimal(encode_utf8(payload).len()) + "\r\n\r\n"@
            + payload,
        TransportMode::Line => payload + "\n"@,
    }
}

/// Frames a message for the host.
pub fn frame_message(mode: TransportMode, payload: &str) -> (text: String)
    ensures
        text@ == framed_message(mode, payload@),
{
    let mut out: Vec<char> = Vec::new();
    match mode {
        TransportMode::Lsp => {
            append_str(&mut out, "Content-Length: ");
            append_decimal(&mut out, payload.as_bytes().len() as u64);
            append_str(&mut out, "\r\n\r\n");
            append_str(&mut out, payload);
        },
        TransportMode::Line => {
            append_str(&mut out, payload);
            append_str(&mut out, "\n");
        },
    }
    proof {
        assert(out@ =~= framed_message(mode, payload@));
    }
    from_chars(out.as_slice())
}

} // verus!
