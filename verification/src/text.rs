//! Text as a sequence of characters: the conversions from and to `String`,
//! searching, trimming, replacing, and numbers in decimal.

use vstd::prelude::*;
use vstd::slice::slice_subrange;
use vstd::std_specs::iter::IteratorSpec;
use vstd::utf8::{encode_utf8, encode_utf8_decode_utf8};

verus! {

/// `String::push`: the character is appended.
#[verifier::external_body]
fn string_push(s: &mut String, c: char)
    ensures
        final(s)@ == old(s)@.push(c),
{
    s.push(c)
}

/// The characters of a text, in order.
pub fn to_chars(s: &str) -> (v: Vec<char>)
    ensures
        v@ == s@,
{
    let mut v: Vec<char> = Vec::new();
    let mut it = s.chars();
    let mut more: bool = true;
    proof {
        broadcast use vstd::string::axiom_spec_iter;
        assert(v@ + it.remaining() =~= s@);
    }
    while more
        invariant
            it.obeys_prophetic_iter_laws(),
            v@ + it.remaining() == s@,
            !more ==> it.remaining().len() == 0,
        decreases s@.len() - v@.len() + (if more { 1int } else { 0int }),
    {
        let ghost before = it.remaining();
        let ghost seen = v@;
        let next = it.next();
        proof {
            broadcast use vstd::string::next_postcondition;
        }
        match next {
            Some(c) => {
                v.push(c);
                proof {
                    assert(before =~= seq![c] + it.remaining());
                    assert(v@ + it.remaining() =~= seen + before);
                }
            },
            None => {
                more = false;
            },
        }
    }
    proof {
        assert(v@ + Seq::<char>::empty() =~= v@);
    }
    v
}

/// The text made of the given characters.
pub fn from_chars(chars: &[char]) -> (s: String)
    ensures
        s@ == chars@,
{
    let mut s = String::new();
    let mut i: usize = 0;
    while i < chars.len()
        invariant
            i <= chars@.len(),
            s@ == chars@.take(i as int),
        decreases chars@.len() - i,
    {
        string_push(&mut s, chars[i]);
        proof {
            assert(chars@.take(i + 1) =~= chars@.take(i as int).push(chars@[i as int]));
        }
        i = i + 1;
    }
    proof {
        assert(chars@.take(chars@.len() as int) =~= chars@);
    }
    s
}

/// Whether two texts hold the same characters.
pub fn same_text(a: &str, b: &str) -> (same: bool)
    ensures
        same == (a@ == b@),
{
    let x = a.as_bytes();
    let y = b.as_bytes();
    proof {
        encode_utf8_decode_utf8(a@);
        encode_utf8_decode_utf8(b@);
        assert(x@ == encode_utf8(a@));
        assert(y@ == encode_utf8(b@));
    }
    if x.len() != y.len() {
        return false;
    }
    let mut i: usize = 0;
    while i < x.len()
        invariant
            i <= x@.len(),
            x@.len() == y@.len(),
            x@ == encode_utf8(a@),
            y@ == encode_utf8(b@),
            x@.take(i as int) == y@.take(i as int),
        decreases x@.len() - i,
    {
        if x[i] != y[i] {
            proof {
                assert(x@[i as int] != y@[i as int]);
                assert(x@ != y@);
                assert(a@ != b@);
            }
            return false;
        }
        proof {
            assert(x@.take(i + 1) =~= x@.take(i as int).push(x@[i as int]));
            assert(y@.take(i + 1) =~= y@.take(i as int).push(y@[i as int]));
        }
        i = i + 1;
    }
    proof {
        assert(x@.take(x@.len() as int) =~= x@);
        assert(y@.take(y@.len() as int) =~= y@);
    }
    true
}

/// Appends the characters of `more` to `out`.
pub fn append_chars(out: &mut Vec<char>, more: &[char])
    ensures
        final(out)@ == old(out)@ + more@,
{
    let mut i: usize = 0;
    while i < more.len()
        invariant
            i <= more@.len(),
            out@ == old(out)@ + more@.take(i as int),
        decreases more@.len() - i,
    {
        out.push(more[i]);
        proof {
            assert(more@.take(i + 1) =~= more@.take(i as int).push(more@[i as int]));
            assert(out@ =~= old(out)@ + more@.take(i + 1));
        }
        i = i + 1;
    }
    proof {
        assert(more@.take(more@.len() as int) =~= more@);
    }
}

/// Appends the characters of a text to `out`.
pub fn append_str(out: &mut Vec<char>, more: &str)
    ensures
        final(out)@ == old(out)@ + more@,
{
    let chars = to_chars(more);
    append_chars(out, chars.as_slice());
}

/// Whether `needle` stands in `hay` at index `i`.
pub open spec fn occurs_at(hay: Seq<char>, needle: Seq<char>, i: int) -> bool {
    0 <= i && i + needle.len() <= hay.len() && hay.subrange(i, i + needle.len()) == needle
}

/// Whether `needle` stands in `hay` at index `i`.
pub fn matches_at(hay: &[char], needle: &[char], i: usize) -> (r: bool)
    ensures
        r == occurs_at(hay@, needle@, i as int),
{
    if i > hay.len() || needle.len() > hay.len() - i {
        return false;
    }
    let ghost window = hay@.subrange(i as int, i + needle@.len());
    let mut j: usize = 0;
    while j < needle.len()
        invariant
            j <= needle@.len(),
            i + needle@.len() <= hay@.len() <= usize::MAX,
            window == hay@.subrange(i as int, i + needle@.len()),
            window.take(j as int) == needle@.take(j as int),
        decreases needle@.len() - j,
    {
        if hay[i + j] != needle[j] {
            proof {
                assert(window[j as int] != needle@[j as int]);
            }
            return false;
        }
        proof {
            assert(window.take(j + 1) =~= window.take(j as int).push(window[j as int]));
            assert(needle@.take(j + 1) =~= needle@.take(j as int).push(needle@[j as int]));
        }
        j = j + 1;
    }
    proof {
        assert(window.take(needle@.len() as int) =~= window);
        assert(needle@.take(needle@.len() as int) =~= needle@);
    }
    true
}

/// Whether `hay` begins with `needle`.
pub open spec fn begins_with(hay: Seq<char>, needle: Seq<char>) -> bool {
    occurs_at(hay, needle, 0)
}

/// Whether `hay` ends with `needle`.
pub open spec fn ends_with(hay: Seq<char>, needle: Seq<char>) -> bool {
    occurs_at(hay, needle, hay.len() - needle.len())
}

/// The index of the first place at or behind `from` where `needle` stands in
/// `hay`.
pub open spec fn find_from(hay: Seq<char>, needle: Seq<char>, from: int) -> Option<int>
    decreases
        (if from <= hay.len() {
            hay.len() - from + 1
        } else {
            0
        }),
{
    if from < 0 || from + needle.len() > hay.len() {
        None
    } else if occurs_at(hay, needle, from) {
        Some(from)
    } else {
        find_from(hay, needle, from + 1)
    }
}

/// Whether `needle` stands anywhere in `hay`.
pub open spec fn has_text(hay: Seq<char>, needle: Seq<char>) -> bool {
    find_from(hay, needle, 0) is Some
}

/// What `find_from` returns is the first place where the needle stands.
pub proof fn lemma_find_from(hay: Seq<char>, needle: Seq<char>, from: int)
    requires
        0 <= from,
    ensures
        match find_from(hay, needle, from) {
            Some(i) => from <= i && occurs_at(hay, needle, i) && forall|j: int|
                from <= j < i ==> !occurs_at(hay, needle, j),
            None => forall|j: int| from <= j ==> !occurs_at(hay, needle, j),
        },
    decreases
        (if from <= hay.len() {
            hay.len() - from + 1
        } else {
            0
        }),
{
    if from + needle.len() <= hay.len() && !occurs_at(hay, needle, from) {
        lemma_find_from(hay, needle, from + 1);
    }
}

/// Finds the first place at or behind `from` where `needle` stands in `hay`.
pub fn find(hay: &[char], needle: &[char], from: usize) -> (r: Option<usize>)
    ensures
        match r {
            Some(i) => find_from(hay@, needle@, from as int) == Some(i as int),
            None => find_from(hay@, needle@, from as int) is None,
        },
{
    if needle.len() > hay.len() {
        return None;
    }
    let last: usize = hay.len() - needle.len();
    let mut i: usize = from;
    while i <= last
        invariant
            from <= i,
            last == hay@.len() - needle@.len(),
            find_from(hay@, needle@, from as int) == find_from(hay@, needle@, i as int),
        decreases last + 1 - i,
    {
        if matches_at(hay, needle, i) {
            return Some(i);
        }
        if i == last {
            proof {
                assert(find_from(hay@, needle@, i + 1) is None);
            }
            return None;
        }
        i = i + 1;
    }
    None
}

/// The characters that Unicode gives the property White_Space.
pub open spec fn is_space(c: char) -> bool {
    let n = c as u32;
    (0x09 <= n <= 0x0d) || n == 0x20 || n == 0x85 || n == 0xa0 || n == 0x1680 || (0x2000 <= n
        <= 0x200a) || n == 0x2028 || n == 0x2029 || n == 0x202f || n == 0x205f || n == 0x3000
}

/// Whether a character is white space.
pub fn is_whitespace(c: char) -> (r: bool)
    ensures
        r == is_space(c),
{
    let n: u32 = c as u32;
    (0x09 <= n && n <= 0x0d) || n == 0x20 || n == 0x85 || n == 0xa0 || n == 0x1680 || (0x2000 <= n
        && n <= 0x200a) || n == 0x2028 || n == 0x2029 || n == 0x202f || n == 0x205f || n == 0x3000
}

/// The first index at or behind `i` that holds no white space.
pub open spec fn skip_spaces(s: Seq<char>, i: int) -> int
    decreases s.len() - i,
{
    if 0 <= i < s.len() && is_space(s[i]) {
        skip_spaces(s, i + 1)
    } else {
        i
    }
}

/// The least end at or before `j` behind which only white space stands.
pub open spec fn drop_spaces(s: Seq<char>, j: int) -> int
    decreases j,
{
    if 0 < j <= s.len() && is_space(s[j - 1]) {
        drop_spaces(s, j - 1)
    } else {
        j
    }
}

/// The text without the white space at its start and at its end.
pub open spec fn trimmed(s: Seq<char>) -> Seq<char> {
    let start = skip_spaces(s, 0);
    let end = drop_spaces(s, s.len() as int);
    if start < end {
        s.subrange(start, end)
    } else {
        Seq::empty()
    }
}

/// The text without the white space at its start and at its end.
pub fn trim(s: &[char]) -> (r: &[char])
    ensures
        r@ == trimmed(s@),
{
    let mut start: usize = 0;
    while start < s.len() && is_whitespace(s[start])
        invariant
            start <= s@.len(),
            skip_spaces(s@, 0) == skip_spaces(s@, start as int),
        decreases s@.len() - start,
    {
        start = start + 1;
    }
    let mut end: usize = s.len();
    while end > 0 && is_whitespace(s[end - 1])
        invariant
            end <= s@.len(),
            drop_spaces(s@, s@.len() as int) == drop_spaces(s@, end as int),
        decreases end,
    {
        end = end - 1;
    }
    if start < end {
        slice_subrange(s, start, end)
    } else {
        let r = slice_subrange(s, 0, 0);
        proof {
            assert(r@ =~= Seq::<char>::empty());
        }
        r
    }
}

/// The text from index `from` on, with every `needle` replaced by `with`,
/// left to right, no two replaced places overlapping. The needle is not
/// empty.
pub open spec fn replaced_from(
    hay: Seq<char>,
    needle: Seq<char>,
    with: Seq<char>,
    from: int,
) -> Seq<char>
    decreases
        (if from < hay.len() {
            hay.len() - from
        } else {
            0
        }),
{
    if from < 0 || from >= hay.len() {
        Seq::empty()
    } else if needle.len() > 0 && occurs_at(hay, needle, from) {
        with + replaced_from(hay, needle, with, from + needle.len())
    } else {
        seq![hay[from]] + replaced_from(hay, needle, with, from + 1)
    }
}

/// The text from index `from` on, with `with` behind every character.
pub open spec fn followed_from(hay: Seq<char>, with: Seq<char>, from: int) -> Seq<char>
    decreases hay.len() - from,
{
    if from < 0 || from >= hay.len() {
        Seq::empty()
    } else {
        seq![hay[from]] + with + followed_from(hay, with, from + 1)
    }
}

/// The text with every `needle` replaced by `with`, left to right, no two
/// replaced places overlapping. An empty needle stands before every character
/// and at the end.
pub open spec fn replaced(hay: Seq<char>, needle: Seq<char>, with: Seq<char>) -> Seq<char> {
    if needle.len() == 0 {
        with + followed_from(hay, with, 0)
    } else {
        replaced_from(hay, needle, with, 0)
    }
}

/// Replaces every `needle` in `hay` by `with`.
pub fn replace(hay: &[char], needle: &[char], with: &[char]) -> (out: Vec<char>)
    ensures
        out@ == replaced(hay@, needle@, with@),
{
    let mut out: Vec<char> = Vec::new();
    let mut i: usize = 0;
    if needle.len() == 0 {
        append_chars(&mut out, with);
        proof {
            assert(out@ =~= with@);
        }
        while i < hay.len()
            invariant
                i <= hay@.len(),
                out@ + followed_from(hay@, with@, i as int) == with@ + followed_from(hay@, with@, 0),
            decreases hay@.len() - i,
        {
            let ghost before = out@;
            out.push(hay[i]);
            append_chars(&mut out, with);
            proof {
                assert(out@ + followed_from(hay@, with@, i + 1) =~= before + (seq![hay@[i as int]]
                    + with@ + followed_from(hay@, with@, i + 1)));
            }
            i = i + 1;
        }
        proof {
            assert(out@ + Seq::<char>::empty() =~= out@);
        }
        return out;
    }
    proof {
        assert(out@ + replaced_from(hay@, needle@, with@, 0) =~= replaced(hay@, needle@, with@));
    }
    while i < hay.len()
        invariant
            i <= hay@.len(),
            needle@.len() > 0,
            out@ + replaced_from(hay@, needle@, with@, i as int) == replaced(
                hay@,
                needle@,
                with@,
            ),
        decreases hay@.len() - i,
    {
        let ghost before = out@;
        if matches_at(hay, needle, i) {
            append_chars(&mut out, with);
            proof {
                assert((before + with@) + replaced_from(
                    hay@,
                    needle@,
                    with@,
                    i + needle@.len(),
                ) =~= before + (with@ + replaced_from(hay@, needle@, with@, i + needle@.len())));
            }
            i = i + needle.len();
        } else {
            out.push(hay[i]);
            proof {
                assert(before.push(hay@[i as int]) + replaced_from(hay@, needle@, with@, i + 1)
                    =~= before + (seq![hay@[i as int]] + replaced_from(
                    hay@,
                    needle@,
                    with@,
                    i + 1,
                )));
            }
            i = i + 1;
        }
    }
    proof {
        assert(out@ + Seq::<char>::empty() =~= out@);
    }
    out
}

/// The number of bytes that a character takes in UTF-8.
pub open spec fn utf8_width(c: char) -> nat {
    let n = c as u32;
    if n < 0x80 {
        1
    } else if n < 0x800 {
        2
    } else if n < 0x1_0000 {
        3
    } else {
        4
    }
}

/// The number of bytes that a text takes in UTF-8.
pub open spec fn utf8_len(s: Seq<char>) -> nat
    decreases s.len(),
{
    if s.len() == 0 {
        0
    } else {
        utf8_len(s.drop_last()) + utf8_width(s.last())
    }
}

/// The number of bytes that a character takes in UTF-8.
pub fn char_width(c: char) -> (w: usize)
    ensures
        w == utf8_width(c),
        1 <= w <= 4,
{
    let n: u32 = c as u32;
    if n < 0x80 {
        1
    } else if n < 0x800 {
        2
    } else if n < 0x1_0000 {
        3
    } else {
        4
    }
}

/// The index of the character that starts at the given byte offset of the
/// text's UTF-8 form, the length of the text for the offset of its end;
/// nothing where no character starts there.
pub open spec fn offset_index(s: Seq<char>, offset: nat) -> Option<int> {
    if exists|k: int| 0 <= k <= s.len() && utf8_len(s.take(k)) == offset {
        Some(choose|k: int| 0 <= k <= s.len() && utf8_len(s.take(k)) == offset)
    } else {
        None
    }
}

/// The index of the character that starts at the given byte offset of the
/// text's UTF-8 form; the length of the text for the offset of its end. `None`
/// where no character starts there.
pub fn index_at_offset(s: &[char], offset: usize) -> (r: Option<usize>)
    ensures
        match r {
            Some(k) => offset_index(s@, offset as nat) == Some(k as int) && k <= s@.len(),
            None => offset_index(s@, offset as nat) is None,
        },
{
    let mut k: usize = 0;
    let mut at: usize = 0;
    proof {
        assert(s@.take(0) =~= Seq::<char>::empty());
    }
    while k < s.len() && at < offset
        invariant
            k <= s@.len(),
            at == utf8_len(s@.take(k as int)),
            at <= offset,
        decreases s@.len() - k,
    {
        let w = char_width(s[k]);
        proof {
            assert(s@.take(k + 1).drop_last() =~= s@.take(k as int));
            assert(s@.take(k + 1).last() == s@[k as int]);
        }
        if w > offset - at {
            proof {
                assert forall|j: int| 0 <= j <= s@.len() implies utf8_len(s@.take(j))
                    != offset by {
                    if j > k {
                        lemma_utf8_len_grows(s@, k + 1, j);
                    } else {
                        lemma_utf8_len_grows(s@, j, k as int);
                    }
                }
            }
            return None;
        }
        at = at + w;
        k = k + 1;
    }
    if at == offset {
        proof {
            let found = choose|j: int| 0 <= j <= s@.len() && utf8_len(s@.take(j)) == offset;
            if found < k {
                lemma_utf8_len_grows(s@, found, k as int);
            } else if found > k {
                lemma_utf8_len_grows(s@, k as int, found);
            }
        }
        Some(k)
    } else {
        proof {
            assert forall|j: int| 0 <= j <= s@.len() implies utf8_len(s@.take(j)) != offset by {
                lemma_utf8_len_grows(s@, j, k as int);
            }
        }
        None
    }
}

/// A longer prefix takes no fewer bytes.
pub proof fn lemma_utf8_len_grows(s: Seq<char>, i: int, j: int)
    requires
        0 <= i <= j <= s.len(),
    ensures
        utf8_len(s.take(i)) <= utf8_len(s.take(j)),
        i < j ==> utf8_len(s.take(i)) < utf8_len(s.take(j)),
    decreases j - i,
{
    if i < j {
        assert(s.take(j).drop_last() =~= s.take(j - 1));
        lemma_utf8_len_grows(s, i, j - 1);
    }
}

/// The character of a decimal digit.
pub open spec fn digit_char(d: nat) -> char {
    if d == 0 {
        '0'
    } else if d == 1 {
        '1'
    } else if d == 2 {
        '2'
    } else if d == 3 {
        '3'
    } else if d == 4 {
        '4'
    } else if d == 5 {
        '5'
    } else if d == 6 {
        '6'
    } else if d == 7 {
        '7'
    } else if d == 8 {
        '8'
    } else {
        '9'
    }
}

/// A number in decimal, without leading zeros; `0` for zero.
pub open spec fn decimal(n: nat) -> Seq<char>
    decreases n,
{
    if n < 10 {
        seq![digit_char(n)]
    } else {
        decimal(n / 10).push(digit_char(n % 10))
    }
}

/// The character of a decimal digit.
fn digit(d: u64) -> (c: char)
    requires
        d < 10,
    ensures
        c == digit_char(d as nat),
{
    if d == 0 {
        '0'
    } else if d == 1 {
        '1'
    } else if d == 2 {
        '2'
    } else if d == 3 {
        '3'
    } else if d == 4 {
        '4'
    } else if d == 5 {
        '5'
    } else if d == 6 {
        '6'
    } else if d == 7 {
        '7'
    } else if d == 8 {
        '8'
    } else {
        '9'
    }
}

/// Appends a number in decimal.
pub fn append_decimal(out: &mut Vec<char>, n: u64)
    ensures
        final(out)@ == old(out)@ + decimal(n as nat),
    decreases n,
{
    if n < 10 {
        out.push(digit(n));
        proof {
            assert(out@ =~= old(out)@ + decimal(n as nat));
        }
    } else {
        append_decimal(out, n / 10);
        out.push(digit(n % 10));
        proof {
            assert(out@ =~= old(out)@ + decimal(n as nat));
        }
    }
}

/// The number of bytes that a text takes in UTF-8, as far as it can be
/// counted: `None` where it does not fit the machine's word.
pub fn byte_len(s: &[char]) -> (n: Option<usize>)
    ensures
        match n {
            Some(n) => n == utf8_len(s@),
            None => utf8_len(s@) > usize::MAX,
        },
{
    let mut n: usize = 0;
    let mut i: usize = 0;
    proof {
        assert(s@.take(0) =~= Seq::<char>::empty());
    }
    while i < s.len()
        invariant
            i <= s@.len(),
            n == utf8_len(s@.take(i as int)),
        decreases s@.len() - i,
    {
        let w = char_width(s[i]);
        proof {
            assert(s@.take(i + 1).drop_last() =~= s@.take(i as int));
            assert(s@.take(i + 1).last() == s@[i as int]);
        }
        if w > usize::MAX - n {
            proof {
                lemma_utf8_len_grows(s@, i + 1, s@.len() as int);
                assert(s@.take(s@.len() as int) =~= s@);
            }
            return None;
        }
        n = n + w;
        i = i + 1;
    }
    proof {
        assert(s@.take(s@.len() as int) =~= s@);
    }
    Some(n)
}

/// Whether a text takes at least `least` bytes in UTF-8.
pub fn has_bytes(s: &[char], least: usize) -> (r: bool)
    ensures
        r == (utf8_len(s@) >= least),
{
    match byte_len(s) {
        Some(n) => n >= least,
        None => true,
    }
}

/// The texts of a list, one behind the other, with `sep` between each two.
pub open spec fn joined(parts: Seq<Seq<char>>, sep: Seq<char>) -> Seq<char>
    decreases parts.len(),
{
    if parts.len() == 0 {
        Seq::empty()
    } else if parts.len() == 1 {
        parts[0]
    } else {
        joined(parts.drop_last(), sep) + sep + parts.last()
    }
}

/// The characters of each text of a list.
pub open spec fn char_lists(list: Seq<Vec<char>>) -> Seq<Seq<char>> {
    list.map_values(|v: Vec<char>| v@)
}

/// Joins the texts of a list, with `sep` between each two.
pub fn join(parts: &Vec<Vec<char>>, sep: &[char]) -> (out: Vec<char>)
    ensures
        out@ == joined(char_lists(parts@), sep@),
{
    let ghost all = char_lists(parts@);
    let mut out: Vec<char> = Vec::new();
    let mut i: usize = 0;
    proof {
        assert(all.take(0) =~= Seq::<Seq<char>>::empty());
    }
    while i < parts.len()
        invariant
            i <= parts@.len(),
            all == char_lists(parts@),
            out@ == joined(all.take(i as int), sep@),
        decreases parts@.len() - i,
    {
        proof {
            assert(all.take(i + 1).drop_last() =~= all.take(i as int));
            assert(all.take(i + 1).last() == parts@[i as int]@);
        }
        if i > 0 {
            append_chars(&mut out, sep);
            append_chars(&mut out, parts[i].as_slice());
        } else {
            append_chars(&mut out, parts[i].as_slice());
            proof {
                assert(out@ =~= parts@[0]@);
                assert(all.take(1)[0] == parts@[0]@);
            }
        }
        i = i + 1;
    }
    proof {
        assert(all.take(parts@.len() as int) =~= all);
    }
    out
}

/// The characters of each text of a list.
pub open spec fn texts_of(list: Seq<String>) -> Seq<Seq<char>> {
    list.map_values(|s: String| s@)
}

/// Whether a text stands in a list.
pub open spec fn listed(list: Seq<Seq<char>>, item: Seq<char>) -> bool {
    exists|i: int| 0 <= i < list.len() && list[i] == item
}

/// The texts of a list, each once, in the order in which they first come.
pub open spec fn distinct(list: Seq<Seq<char>>) -> Seq<Seq<char>>
    decreases list.len(),
{
    if list.len() == 0 {
        Seq::empty()
    } else {
        let before = distinct(list.drop_last());
        if listed(before, list.last()) {
            before
        } else {
            before.push(list.last())
        }
    }
}

/// Whether two texts hold the same characters.
pub fn same_chars(a: &[char], b: &[char]) -> (r: bool)
    ensures
        r == (a@ == b@),
{
    if a.len() != b.len() {
        return false;
    }
    let r = matches_at(a, b, 0);
    proof {
        assert(a@.subrange(0, b@.len() as int) =~= a@);
    }
    r
}

/// Whether a text stands in a list.
pub fn is_listed(list: &Vec<Vec<char>>, item: &[char]) -> (r: bool)
    ensures
        r == listed(char_lists(list@), item@),
{
    let mut i: usize = 0;
    while i < list.len()
        invariant
            i <= list@.len(),
            forall|j: int| 0 <= j < i ==> char_lists(list@)[j] != item@,
        decreases list@.len() - i,
    {
        if same_chars(list[i].as_slice(), item) {
            proof {
                assert(char_lists(list@)[i as int] == item@);
            }
            return true;
        }
        i = i + 1;
    }
    false
}

/// The characters of each text of a list, each text once, in the order in
/// which they first come.
pub fn distinct_texts(list: &[String]) -> (out: Vec<Vec<char>>)
    ensures
        char_lists(out@) == distinct(texts_of(list@)),
{
    let ghost all = texts_of(list@);
    let mut out: Vec<Vec<char>> = Vec::new();
    let mut i: usize = 0;
    proof {
        assert(all.take(0) =~= Seq::<Seq<char>>::empty());
        assert(char_lists(out@) =~= Seq::<Seq<char>>::empty());
    }
    while i < list.len()
        invariant
            i <= list@.len(),
            all == texts_of(list@),
            char_lists(out@) == distinct(all.take(i as int)),
        decreases list@.len() - i,
    {
        let item = to_chars(list[i].as_str());
        proof {
            assert(all.take(i + 1).drop_last() =~= all.take(i as int));
            assert(all.take(i + 1).last() == item@);
        }
        if !is_listed(&out, item.as_slice()) {
            let ghost before = char_lists(out@);
            out.push(item);
            proof {
                assert(char_lists(out@) =~= before.push(item@));
            }
        }
        i = i + 1;
    }
    proof {
        assert(all.take(list@.len() as int) =~= all);
    }
    out
}

/// Whether `a` comes before `b`, or is `b`, in the order of texts: character
/// by character by code point, a text before every text that it begins.
pub open spec fn text_le(a: Seq<char>, b: Seq<char>) -> bool
    decreases a.len(),
{
    if a.len() == 0 {
        true
    } else if b.len() == 0 {
        false
    } else if a[0] != b[0] {
        (a[0] as u32) < (b[0] as u32)
    } else {
        text_le(a.skip(1), b.skip(1))
    }
}

/// Whether `a` comes before `b`, or is `b`, in the order of texts.
pub fn is_text_le(a: &[char], b: &[char]) -> (r: bool)
    ensures
        r == text_le(a@, b@),
{
    let mut i: usize = 0;
    proof {
        assert(a@.skip(0) =~= a@);
        assert(b@.skip(0) =~= b@);
    }
    while i < a.len() && i < b.len() && a[i] == b[i]
        invariant
            i <= a@.len(),
            i <= b@.len(),
            text_le(a@, b@) == text_le(a@.skip(i as int), b@.skip(i as int)),
        decreases a@.len() - i,
    {
        proof {
            assert(a@.skip(i as int).skip(1) =~= a@.skip(i + 1));
            assert(b@.skip(i as int).skip(1) =~= b@.skip(i + 1));
        }
        i = i + 1;
    }
    if i >= a.len() {
        true
    } else if i >= b.len() {
        false
    } else {
        (a[i] as u32) < (b[i] as u32)
    }
}

/// Where a text goes into a list of texts in order: behind the last text
/// that does not come after it.
pub open spec fn sort_position(list: Seq<Seq<char>>, item: Seq<char>) -> int
    decreases list.len(),
{
    if list.len() == 0 {
        0
    } else if text_le(list.last(), item) {
        list.len() as int
    } else {
        sort_position(list.drop_last(), item)
    }
}

/// The texts of a list in order; texts that are the same keep their order.
pub open spec fn sorted_texts(list: Seq<Seq<char>>) -> Seq<Seq<char>>
    decreases list.len(),
{
    if list.len() == 0 {
        Seq::empty()
    } else {
        let before = sorted_texts(list.drop_last());
        before.insert(sort_position(before, list.last()), list.last())
    }
}

/// Puts the texts of a list in order.
pub fn sort_texts(list: &Vec<Vec<char>>) -> (out: Vec<Vec<char>>)
    ensures
        char_lists(out@) == sorted_texts(char_lists(list@)),
{
    let ghost model = char_lists(list@);
    let mut out: Vec<Vec<char>> = Vec::new();
    let mut i: usize = 0;
    proof {
        assert(model.take(0) =~= Seq::<Seq<char>>::empty());
        assert(char_lists(out@) =~= Seq::<Seq<char>>::empty());
    }
    while i < list.len()
        invariant
            i <= list@.len(),
            model == char_lists(list@),
            char_lists(out@) == sorted_texts(model.take(i as int)),
        decreases list@.len() - i,
    {
        proof {
            assert(model.take(i + 1).drop_last() =~= model.take(i as int));
            assert(model.take(i + 1).last() == list@[i as int]@);
        }
        let item = &list[i];
        let ghost before = char_lists(out@);
        let mut at: usize = out.len();
        proof {
            assert(before.take(at as int) =~= before);
        }
        while at > 0 && !is_text_le(out[at - 1].as_slice(), item.as_slice())
            invariant
                at <= out@.len(),
                before == char_lists(out@),
                sort_position(before, item@) == sort_position(before.take(at as int), item@),
            decreases at,
        {
            proof {
                assert(before.take(at as int).drop_last() =~= before.take(at - 1));
                assert(before.take(at as int).last() == before[at - 1]);
            }
            at = at - 1;
        }
        proof {
            if at > 0 {
                assert(before.take(at as int).last() == before[at - 1]);
            }
            assert(sort_position(before, item@) == at);
        }
        let mut copy: Vec<char> = Vec::new();
        append_chars(&mut copy, item.as_slice());
        out.insert(at, copy);
        proof {
            assert(copy@ =~= item@);
            assert(char_lists(out@) =~= before.insert(at as int, item@));
        }
        i = i + 1;
    }
    proof {
        assert(model.take(list@.len() as int) =~= model);
    }
    out
}

/// Of two texts one comes before the other, or they are the same.
pub proof fn lemma_text_le_total(a: Seq<char>, b: Seq<char>)
    ensures
        text_le(a, b) || text_le(b, a),
    decreases a.len(),
{
    if a.len() > 0 && b.len() > 0 {
        if a[0] == b[0] {
            lemma_text_le_total(a.skip(1), b.skip(1));
        } else {
            vstd::utf8::char_u32_cast(a[0], a[0] as u32);
            vstd::utf8::char_u32_cast(b[0], b[0] as u32);
        }
    }
}

/// The order of texts is transitive.
pub proof fn lemma_text_le_trans(a: Seq<char>, b: Seq<char>, c: Seq<char>)
    requires
        text_le(a, b),
        text_le(b, c),
    ensures
        text_le(a, c),
    decreases a.len(),
{
    if a.len() > 0 && b.len() > 0 && c.len() > 0 {
        vstd::utf8::char_u32_cast(a[0], a[0] as u32);
        vstd::utf8::char_u32_cast(b[0], b[0] as u32);
        vstd::utf8::char_u32_cast(c[0], c[0] as u32);
        if a[0] == b[0] && b[0] == c[0] {
            lemma_text_le_trans(a.skip(1), b.skip(1), c.skip(1));
        }
    }
}

/// Whether the texts of a list are in order.
pub open spec fn in_order(list: Seq<Seq<char>>) -> bool {
    forall|i: int, j: int| 0 <= i < j < list.len() ==> text_le(#[trigger] list[i], #[trigger] list[j])
}

/// In a list in order, the place for a text splits the list: what stands
/// before the place does not come after the text, what stands behind it does
/// not come before.
pub proof fn lemma_sort_position(list: Seq<Seq<char>>, item: Seq<char>)
    requires
        in_order(list),
    ensures
        0 <= sort_position(list, item) <= list.len(),
        forall|i: int|
            0 <= i < sort_position(list, item) ==> text_le(#[trigger] list[i], item),
        forall|i: int|
            sort_position(list, item) <= i < list.len() ==> text_le(item, #[trigger] list[i]),
    decreases list.len(),
{
    if list.len() > 0 {
        let last = list.last();
        if text_le(last, item) {
            assert forall|i: int| 0 <= i < list.len() implies text_le(#[trigger] list[i], item) by {
                if i < list.len() - 1 {
                    assert(text_le(list[i], list[list.len() - 1]));
                    lemma_text_le_trans(list[i], last, item);
                }
            }
        } else {
            let front = list.drop_last();
            assert forall|i: int, j: int| 0 <= i < j < front.len() implies text_le(
                #[trigger] front[i],
                #[trigger] front[j],
            ) by {
                assert(text_le(list[i], list[j]));
            }
            lemma_sort_position(front, item);
            lemma_text_le_total(last, item);
            assert forall|i: int| sort_position(list, item) <= i < list.len() implies text_le(
                item,
                #[trigger] list[i],
            ) by {
                if i < front.len() {
                    assert(text_le(item, front[i]));
                }
            }
            assert forall|i: int| 0 <= i < sort_position(list, item) implies text_le(
                #[trigger] list[i],
                item,
            ) by {
                assert(text_le(front[i], item));
            }
        }
    }
}

/// Sorting puts the texts in order.
pub proof fn lemma_sorted_in_order(list: Seq<Seq<char>>)
    ensures
        in_order(sorted_texts(list)),
        sorted_texts(list).len() == list.len(),
    decreases list.len(),
{
    if list.len() > 0 {
        let before = sorted_texts(list.drop_last());
        let item = list.last();
        lemma_sorted_in_order(list.drop_last());
        lemma_sort_position(before, item);
        let at = sort_position(before, item);
        let after = before.insert(at, item);
        assert forall|i: int, j: int| 0 <= i < j < after.len() implies text_le(
            #[trigger] after[i],
            #[trigger] after[j],
        ) by {
            if j < at {
                assert(after[i] == before[i] && after[j] == before[j]);
            } else if j == at {
                assert(after[i] == before[i]);
            } else if i < at {
                assert(after[i] == before[i] && after[j] == before[j - 1]);
                if j - 1 == i {
                    assert(false);
                }
            } else if i == at {
                assert(after[j] == before[j - 1]);
            } else {
                assert(after[i] == before[i - 1] && after[j] == before[j - 1]);
            }
        }
    }
}

/// Sorting keeps the texts: each stands in the sorted list as often as in
/// the list.
pub proof fn lemma_sorted_same_texts(list: Seq<Seq<char>>)
    ensures
        sorted_texts(list).to_multiset() == list.to_multiset(),
    decreases list.len(),
{
    if list.len() > 0 {
        let front = list.drop_last();
        let before = sorted_texts(front);
        let item = list.last();
        lemma_sorted_same_texts(front);
        lemma_sorted_in_order(front);
        lemma_sort_position(before, item);
        vstd::seq_lib::to_multiset_insert(before, sort_position(before, item), item);
        vstd::seq_lib::to_multiset_build(front, item);
        assert(front.push(item) =~= list);
    } else {
        assert(sorted_texts(list) =~= list);
    }
}

} // verus!
