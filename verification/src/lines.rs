//! Text cut into lines and into words, lines joined again, and numbers
//! read from text.

use vstd::prelude::*;
use crate::text::{chars_of, has_prefix, starts_with_chars};

verus! {

/// The place of the first line feed of a text; the length of the text if
/// it has none.
pub open spec fn first_newline(text: Seq<char>) -> int
    decreases text.len(),
{
    if text.len() == 0 || text[0] == '\n' {
        0
    } else {
        1 + first_newline(text.drop_first())
    }
}

/// A line without the carriage return at its end, if it has one there.
pub open spec fn without_cr(line: Seq<char>) -> Seq<char> {
    if line.len() > 0 && line.last() == '\r' {
        line.drop_last()
    } else {
        line
    }
}

/// The lines of a text. A line ends at a line feed; the line feed, and a
/// carriage return just before it, belong to no line. What follows the
/// last line feed is a line if it is not empty.
pub open spec fn lines_of(text: Seq<char>) -> Seq<Seq<char>>
    decreases text.len(),
{
    if text.len() == 0 {
        Seq::empty()
    } else {
        let k = first_newline(text);
        if k < 0 || k >= text.len() {
            seq![text]
        } else {
            seq![without_cr(text.take(k))] + lines_of(text.skip(k + 1))
        }
    }
}

/// The texts of a list of lines.
pub open spec fn line_views(lines: Seq<Vec<char>>) -> Seq<Seq<char>> {
    lines.map_values(|line: Vec<char>| line@)
}

/// The first line feed lies where a line feed stands with none before it.
pub proof fn first_newline_found(text: Seq<char>, k: int)
    requires
        0 <= k <= text.len(),
        forall|i: int| 0 <= i < k ==> text[i] != '\n',
        k < text.len() ==> text[k] == '\n',
    ensures
        first_newline(text) == k,
    decreases k,
{
    if k > 0 {
        let rest = text.drop_first();
        assert forall|i: int| 0 <= i < k - 1 implies rest[i] != '\n' by {
            assert(rest[i] == text[i + 1]);
        }
        first_newline_found(rest, k - 1);
    }
}

/// The lines of a text.
pub fn split_lines(text: &[char]) -> (lines: Vec<Vec<char>>)
    ensures
        line_views(lines@) == lines_of(text@),
{
    let mut lines: Vec<Vec<char>> = Vec::new();
    let mut at: usize = 0;
    proof {
        assert(text@.skip(0) =~= text@);
        assert(line_views(lines@) =~= Seq::<Seq<char>>::empty());
        assert(Seq::<Seq<char>>::empty() + lines_of(text@) =~= lines_of(text@));
    }
    while at < text.len()
        invariant
            at <= text.len(),
            lines_of(text@) == line_views(lines@) + lines_of(text@.skip(at as int)),
        decreases text.len() - at,
    {
        let mut end: usize = at;
        while end < text.len() && text[end] != '\n'
            invariant
                at <= end <= text.len(),
                forall|i: int| at <= i < end ==> text@[i] != '\n',
            decreases text.len() - end,
        {
            end += 1;
        }
        let ghost rest = text@.skip(at as int);
        let ghost before = line_views(lines@);
        proof {
            assert forall|i: int| 0 <= i < end - at implies rest[i] != '\n' by {
                assert(rest[i] == text@[at + i]);
            }
            first_newline_found(rest, end - at);
        }
        let mut stop: usize = end;
        if end < text.len() && end > at && text[end - 1] == '\r' {
            stop = end - 1;
        }
        let line = slice_to_vec(vstd::slice::slice_subrange(text, at, stop));
        proof {
            let raw = rest.take(end - at);
            assert(raw =~= text@.subrange(at as int, end as int));
            if end < text.len() {
                assert(line@ =~= without_cr(raw));
                assert(rest.skip(end - at + 1) =~= text@.skip(end + 1));
            } else {
                assert(line@ =~= rest);
            }
        }
        lines.push(line);
        proof {
            assert(line_views(lines@) =~= before.push(line@));
            if end < text.len() {
                assert(before + (seq![line@] + lines_of(text@.skip(end + 1))) =~= before.push(
                    line@,
                ) + lines_of(text@.skip(end + 1)));
            } else {
                assert(text@.skip(text@.len() as int) =~= Seq::<char>::empty());
                assert(before + seq![line@] =~= before.push(line@) + Seq::<Seq<char>>::empty());
            }
        }
        at = if end < text.len() {
            end + 1
        } else {
            end
        };
    }
    proof {
        assert(text@.skip(at as int) =~= Seq::<char>::empty());
        assert(line_views(lines@) + Seq::<Seq<char>>::empty() =~= line_views(lines@));
    }
    lines
}

/// A copy of a run of characters.
pub fn slice_to_vec(chars: &[char]) -> (copy: Vec<char>)
    ensures
        copy@ == chars@,
{
    let mut copy: Vec<char> = Vec::new();
    let mut i: usize = 0;
    while i < chars.len()
        invariant
            i <= chars.len(),
            copy@ == chars@.take(i as int),
        decreases chars.len() - i,
    {
        copy.push(chars[i]);
        proof {
            assert(chars@.take(i + 1) =~= chars@.take(i as int).push(chars@[i as int]));
        }
        i += 1;
    }
    assert(chars@.take(i as int) =~= chars@);
    copy
}

/// Lines put together with a line feed between each two.
pub open spec fn joined(lines: Seq<Seq<char>>) -> Seq<char>
    decreases lines.len(),
{
    if lines.len() == 0 {
        Seq::empty()
    } else if lines.len() == 1 {
        lines[0]
    } else {
        joined(lines.drop_last()) + seq!['\n'] + lines.last()
    }
}

/// Lines put together with a line feed between each two.
pub fn join_lines(lines: &Vec<Vec<char>>) -> (text: Vec<char>)
    ensures
        text@ == joined(line_views(lines@)),
{
    let mut text: Vec<char> = Vec::new();
    let mut i: usize = 0;
    let ghost all = line_views(lines@);
    proof {
        assert(all.take(0) =~= Seq::<Seq<char>>::empty());
    }
    while i < lines.len()
        invariant
            i <= lines.len(),
            all == line_views(lines@),
            text@ == joined(all.take(i as int)),
        decreases lines.len() - i,
    {
        if i > 0 {
            text.push('\n');
        }
        let ghost head = text@;
        let line = &lines[i];
        let mut k: usize = 0;
        while k < line.len()
            invariant
                k <= line.len(),
                text@ == head + line@.take(k as int),
            decreases line.len() - k,
        {
            text.push(line[k]);
            proof {
                assert(line@.take(k + 1) =~= line@.take(k as int).push(line@[k as int]));
            }
            k += 1;
        }
        proof {
            assert(line@.take(k as int) =~= line@);
            assert(all[i as int] == line@);
            let more = all.take(i + 1);
            assert(more.drop_last() =~= all.take(i as int));
            assert(more.last() == line@);
            if i == 0 {
                assert(more[0] == line@);
                assert(joined(Seq::<Seq<char>>::empty()) + line@ =~= line@);
            }
        }
        i += 1;
    }
    assert(all.take(i as int) =~= all);
    text
}

/// The character is white space, as Unicode defines it.
pub open spec fn is_space(c: char) -> bool {
    let u = c as u32;
    ||| 0x09 <= u <= 0x0d
    ||| u == 0x20
    ||| u == 0x85
    ||| u == 0xa0
    ||| u == 0x1680
    ||| 0x2000 <= u <= 0x200a
    ||| u == 0x2028
    ||| u == 0x2029
    ||| u == 0x202f
    ||| u == 0x205f
    ||| u == 0x3000
}

/// Whether the character is white space.
pub fn is_whitespace(c: char) -> (yes: bool)
    ensures
        yes == is_space(c),
{
    let u = c as u32;
    (0x09 <= u && u <= 0x0d) || u == 0x20 || u == 0x85 || u == 0xa0 || u == 0x1680 || (0x2000 <= u
        && u <= 0x200a) || u == 0x2028 || u == 0x2029 || u == 0x202f || u == 0x205f || u == 0x3000
}

/// Every character of the text is white space.
pub open spec fn is_blank(text: Seq<char>) -> bool {
    forall|i: int| 0 <= i < text.len() ==> is_space(#[trigger] text[i])
}

/// Whether every character of the text is white space.
pub fn blank(text: &[char]) -> (yes: bool)
    ensures
        yes == is_blank(text@),
{
    let mut i: usize = 0;
    while i < text.len()
        invariant
            i <= text.len(),
            forall|k: int| 0 <= k < i ==> is_space(#[trigger] text@[k]),
        decreases text.len() - i,
    {
        if !is_whitespace(text[i]) {
            return false;
        }
        i += 1;
    }
    true
}

/// How many characters at the front of a text are (`spaces` true) or are
/// not (`spaces` false) white space.
pub open spec fn run_length(text: Seq<char>, spaces: bool) -> int
    decreases text.len(),
{
    if text.len() == 0 || is_space(text[0]) != spaces {
        0
    } else {
        1 + run_length(text.drop_first(), spaces)
    }
}

/// The words of a text: its longest runs of characters that are not white
/// space, in order.
pub open spec fn words_of(text: Seq<char>) -> Seq<Seq<char>>
    decreases text.len(),
{
    let blanks = run_length(text, true);
    let rest = text.skip(blanks);
    if blanks < 0 || blanks >= text.len() {
        Seq::empty()
    } else {
        let n = run_length(rest, false);
        if 0 < n <= rest.len() {
            seq![rest.take(n)] + words_of(rest.skip(n))
        } else {
            Seq::empty()
        }
    }
}

/// A run ends where a character of the other sort stands with none before
/// it.
pub proof fn run_length_found(text: Seq<char>, spaces: bool, k: int)
    requires
        0 <= k <= text.len(),
        forall|i: int| 0 <= i < k ==> is_space(#[trigger] text[i]) == spaces,
        k < text.len() ==> is_space(text[k]) != spaces,
    ensures
        run_length(text, spaces) == k,
    decreases k,
{
    if k > 0 {
        let rest = text.drop_first();
        assert(is_space(text[0]) == spaces);
        assert forall|i: int| 0 <= i < k - 1 implies is_space(#[trigger] rest[i]) == spaces by {
            assert(rest[i] == text[i + 1]);
        }
        run_length_found(rest, spaces, k - 1);
    }
}

/// The words of a text.
pub fn split_words(text: &[char]) -> (words: Vec<Vec<char>>)
    ensures
        line_views(words@) == words_of(text@),
{
    let mut words: Vec<Vec<char>> = Vec::new();
    let mut at: usize = 0;
    proof {
        assert(text@.skip(0) =~= text@);
        assert(line_views(words@) =~= Seq::<Seq<char>>::empty());
        assert(Seq::<Seq<char>>::empty() + words_of(text@) =~= words_of(text@));
    }
    loop
        invariant
            at <= text.len(),
            words_of(text@) == line_views(words@) + words_of(text@.skip(at as int)),
        ensures
            line_views(words@) == words_of(text@),
        decreases text.len() - at,
    {
        let ghost tail = text@.skip(at as int);
        let mut begin: usize = at;
        while begin < text.len() && is_whitespace(text[begin])
            invariant
                at <= begin <= text.len(),
                forall|i: int| at <= i < begin ==> is_space(#[trigger] text@[i]),
            decreases text.len() - begin,
        {
            begin += 1;
        }
        proof {
            assert forall|i: int| 0 <= i < begin - at implies is_space(#[trigger] tail[i]) == true by {
                assert(tail[i] == text@[at + i]);
            }
            run_length_found(tail, true, begin - at);
            assert(tail.skip(begin - at) =~= text@.skip(begin as int));
        }
        if begin == text.len() {
            proof {
                assert(text@.skip(begin as int).len() == 0);
                assert(words_of(tail) =~= Seq::<Seq<char>>::empty());
                assert(line_views(words@) + Seq::<Seq<char>>::empty() =~= line_views(words@));
            }
            break;
        }
        let mut end: usize = begin;
        while end < text.len() && !is_whitespace(text[end])
            invariant
                begin <= end <= text.len(),
                forall|i: int| begin <= i < end ==> !is_space(#[trigger] text@[i]),
            decreases text.len() - end,
        {
            end += 1;
        }
        let ghost rest = text@.skip(begin as int);
        let ghost before = line_views(words@);
        proof {
            assert forall|i: int| 0 <= i < end - begin implies is_space(#[trigger] rest[i])
                == false by {
                assert(rest[i] == text@[begin + i]);
            }
            run_length_found(rest, false, end - begin);
            assert(end > begin);
        }
        let word = slice_to_vec(vstd::slice::slice_subrange(text, begin, end));
        proof {
            assert(word@ =~= rest.take(end - begin));
            assert(rest.skip(end - begin) =~= text@.skip(end as int));
        }
        words.push(word);
        proof {
            assert(line_views(words@) =~= before.push(word@));
            assert(before + (seq![word@] + words_of(text@.skip(end as int))) =~= before.push(word@)
                + words_of(text@.skip(end as int)));
        }
        at = end;
    }
    words
}

/// Whether a line begins with the given text.
pub fn begins_with(line: &[char], prefix: &str) -> (yes: bool)
    ensures
        yes == has_prefix(line@, prefix@),
{
    let p = chars_of(prefix);
    starts_with_chars(line, p.as_slice())
}

/// The character is one of the ten decimal digits.
pub open spec fn is_digit(c: char) -> bool {
    '0' <= c <= '9'
}

/// The number that decimal digits write.
pub open spec fn decimal_value(digits: Seq<char>) -> nat
    decreases digits.len(),
{
    if digits.len() == 0 {
        0
    } else {
        decimal_value(digits.drop_last()) * 10 + (digits.last() as u32 - '0' as u32) as nat
    }
}

/// Every character of the text is a decimal digit.
pub open spec fn all_digits(text: Seq<char>) -> bool {
    forall|i: int| 0 <= i < text.len() ==> is_digit(#[trigger] text[i])
}

/// The number that decimal digits write, if they are digits, at least one,
/// and the number is no greater than `limit`.
pub open spec fn bounded_value(digits: Seq<char>, limit: nat) -> Option<nat> {
    if digits.len() > 0 && all_digits(digits) && decimal_value(digits) <= limit {
        Some(decimal_value(digits))
    } else {
        None
    }
}

/// Reads decimal digits as a number no greater than `limit`.
pub fn read_digits(digits: &[char], limit: u64) -> (value: Option<u64>)
    ensures
        match value {
            Some(v) => bounded_value(digits@, limit as nat) == Some(v as nat),
            None => bounded_value(digits@, limit as nat) is None,
        },
{
    if digits.len() == 0 {
        return None;
    }
    let mut value: u64 = 0;
    let mut over = false;
    let mut i: usize = 0;
    proof {
        assert(digits@.take(0) =~= Seq::<char>::empty());
    }
    while i < digits.len()
        invariant
            i <= digits.len(),
            all_digits(digits@.take(i as int)),
            !over ==> value == decimal_value(digits@.take(i as int)) && value <= limit,
            over ==> decimal_value(digits@.take(i as int)) > limit,
        decreases digits.len() - i,
    {
        let c = digits[i];
        if !('0' <= c && c <= '9') {
            proof {
                assert(!is_digit(digits@[i as int]));
            }
            return None;
        }
        let d = (c as u32 - '0' as u32) as u64;
        proof {
            let more = digits@.take(i + 1);
            assert(more.drop_last() =~= digits@.take(i as int));
            assert(more.last() == c);
            assert forall|k: int| 0 <= k < more.len() implies is_digit(#[trigger] more[k]) by {
                if k < i {
                    assert(more[k] == digits@.take(i as int)[k]);
                }
            }
        }
        if !over {
            if limit < d || value > (limit - d) / 10 {
                over = true;
                proof {
                    let v = value as int;
                    let l = limit as int;
                    let dd = d as int;
                    if l >= dd {
                        assert(v * 10 + dd > l) by (nonlinear_arith)
                            requires
                                v > (l - dd) / 10,
                                l >= dd,
                                dd >= 0,
                        ;
                    }
                }
            } else {
                proof {
                    let v = value as int;
                    let l = limit as int;
                    let dd = d as int;
                    assert(v * 10 + dd <= l) by (nonlinear_arith)
                        requires
                            v <= (l - dd) / 10,
                            l >= dd,
                            v >= 0,
                    ;
                }
                value = value * 10 + d;
            }
        } else {
            proof {
                let prev = decimal_value(digits@.take(i as int)) as int;
                assert(prev * 10 + d >= prev) by (nonlinear_arith)
                    requires
                        prev >= 0,
                        d >= 0,
                ;
            }
        }
        i += 1;
    }
    proof {
        assert(digits@.take(i as int) =~= digits@);
    }
    if over {
        None
    } else {
        Some(value)
    }
}

/// The whole number that a text writes in decimal digits behind an
/// optional sign, if it is one that fits in 64 bits.
pub open spec fn signed_value(text: Seq<char>) -> Option<i64> {
    if text.len() > 0 && text[0] == '-' {
        match bounded_value(text.skip(1), 0x8000_0000_0000_0000) {
            Some(v) => Some((-(v as int)) as i64),
            None => None,
        }
    } else if text.len() > 0 && text[0] == '+' {
        match bounded_value(text.skip(1), 0x7fff_ffff_ffff_ffff) {
            Some(v) => Some(v as i64),
            None => None,
        }
    } else {
        match bounded_value(text, 0x7fff_ffff_ffff_ffff) {
            Some(v) => Some(v as i64),
            None => None,
        }
    }
}

/// Reads a whole number in decimal digits behind an optional sign.
pub fn parse_i64(text: &[char]) -> (value: Option<i64>)
    ensures
        value == signed_value(text@),
{
    if text.len() > 0 && text[0] == '-' {
        let digits = vstd::slice::slice_subrange(text, 1, text.len());
        assert(digits@ =~= text@.skip(1));
        match read_digits(digits, 0x8000_0000_0000_0000) {
            Some(v) => {
                if v == 0x8000_0000_0000_0000 {
                    Some(i64::MIN)
                } else {
                    Some(-(v as i64))
                }
            },
            None => None,
        }
    } else if text.len() > 0 && text[0] == '+' {
        let digits = vstd::slice::slice_subrange(text, 1, text.len());
        assert(digits@ =~= text@.skip(1));
        match read_digits(digits, 0x7fff_ffff_ffff_ffff) {
            Some(v) => Some(v as i64),
            None => None,
        }
    } else {
        match read_digits(text, 0x7fff_ffff_ffff_ffff) {
            Some(v) => Some(v as i64),
            None => None,
        }
    }
}

} // verus!
