//! Reading text piece by piece: lines, surrounding space, and numbers.

use crate::text::{chars_of, slice_of};
use vstd::prelude::*;

verus! {

/// Whether a character is white space: one of the characters with the
/// Unicode property `White_Space`, which are the controls from tab to
/// carriage return, the space, the next-line control, the no-break space,
/// the ogham space mark, the spaces from en quad to hair space, the line and
/// the paragraph separator, the narrow no-break space, the medium
/// mathematical space and the ideographic space.
pub open spec fn white_space(c: char) -> bool {
    let u = c as u32;
    ||| 0x09 <= u <= 0x0D
    ||| u == 0x20
    ||| u == 0x85
    ||| u == 0xA0
    ||| u == 0x1680
    ||| 0x2000 <= u <= 0x200A
    ||| u == 0x2028
    ||| u == 0x2029
    ||| u == 0x202F
    ||| u == 0x205F
    ||| u == 0x3000
}

/// Whether a character is white space.
pub fn is_whitespace(c: char) -> (space: bool)
    ensures
        space == white_space(c),
{
    let u: u32 = c as u32;
    (0x09 <= u && u <= 0x0D) || u == 0x20 || u == 0x85 || u == 0xA0 || u == 0x1680 || (0x2000 <= u
        && u <= 0x200A) || u == 0x2028 || u == 0x2029 || u == 0x202F || u == 0x205F || u
        == 0x3000
}

/// The index of the first character at or after `from` that is no white
/// space, or the length of `s`.
pub open spec fn skip_space(s: Seq<char>, from: int) -> int
    decreases s.len() - from,
{
    if 0 <= from < s.len() && white_space(s[from]) {
        skip_space(s, from + 1)
    } else {
        from
    }
}

/// The index behind the last character before `to`, and at or after `low`,
/// that is no white space; `low` where there is none.
pub open spec fn skip_space_back(s: Seq<char>, to: int, low: int) -> int
    decreases to,
{
    if low < to <= s.len() && 0 < to && white_space(s[to - 1]) {
        skip_space_back(s, to - 1, low)
    } else {
        to
    }
}

/// `s` without the white space at its two ends.
pub open spec fn trimmed(s: Seq<char>) -> Seq<char> {
    let start = skip_space(s, 0);
    s.subrange(start, skip_space_back(s, s.len() as int, start))
}

/// The number of characters from `from` up to the next line feed, or to the
/// end of `s`.
pub open spec fn run_to_line_end(s: Seq<char>, from: int) -> nat
    decreases s.len() - from,
{
    if 0 <= from < s.len() && s[from] != '\n' {
        1 + run_to_line_end(s, from + 1)
    } else {
        0
    }
}

/// The lines of `s` from index `from` on: the pieces between line feeds. A
/// text that ends in a line feed has an empty last line.
pub open spec fn lines_from(s: Seq<char>, from: int) -> Seq<Seq<char>>
    decreases s.len() - from,
{
    if from < 0 || from > s.len() {
        Seq::empty()
    } else {
        let end = from + run_to_line_end(s, from);
        if end >= s.len() {
            seq![s.subrange(from, s.len() as int)]
        } else {
            seq![s.subrange(from, end)] + lines_from(s, end + 1)
        }
    }
}

/// The lines of `s`.
pub open spec fn lines_of(s: Seq<char>) -> Seq<Seq<char>> {
    lines_from(s, 0)
}

/// The value of a decimal digit.
pub open spec fn digit_value(c: char) -> Option<nat> {
    if c == '0' {
        Some(0)
    } else if c == '1' {
        Some(1)
    } else if c == '2' {
        Some(2)
    } else if c == '3' {
        Some(3)
    } else if c == '4' {
        Some(4)
    } else if c == '5' {
        Some(5)
    } else if c == '6' {
        Some(6)
    } else if c == '7' {
        Some(7)
    } else if c == '8' {
        Some(8)
    } else if c == '9' {
        Some(9)
    } else {
        None
    }
}

/// The number that a run of decimal digits stands for; `None` where a
/// character is no digit. The empty run stands for zero.
pub open spec fn digits_value(s: Seq<char>) -> Option<nat>
    decreases s.len(),
{
    if s.len() == 0 {
        Some(0)
    } else {
        match (digits_value(s.drop_last()), digit_value(s.last())) {
            (Some(high), Some(low)) => Some(10 * high + low),
            _ => None,
        }
    }
}

/// The number of at most `max` that a text stands for: an optional `+`,
/// then at least one decimal digit and nothing else.
pub open spec fn parsed_unsigned(s: Seq<char>, max: nat) -> Option<nat> {
    let digits = if s.len() > 0 && s[0] == '+' {
        s.drop_first()
    } else {
        s
    };
    if digits.len() == 0 {
        None
    } else {
        match digits_value(digits) {
            Some(value) => if value <= max {
                Some(value)
            } else {
                None
            },
            None => None,
        }
    }
}

/// The 16-bit number that a text stands for, if it stands for one.
pub open spec fn parsed_u16(s: Seq<char>) -> Option<u16> {
    match parsed_unsigned(s, u16::MAX as nat) {
        Some(value) => Some(value as u16),
        None => None,
    }
}

/// The 64-bit number that a text stands for, if it stands for one.
pub open spec fn parsed_u64(s: Seq<char>) -> Option<u64> {
    match parsed_unsigned(s, u64::MAX as nat) {
        Some(value) => Some(value as u64),
        None => None,
    }
}

/// `s` without the white space at its two ends.
pub fn trim_chars(s: &Vec<char>) -> (r: Vec<char>)
    ensures
        r@ == trimmed(s@),
{
    let mut start: usize = 0;
    while start < s.len() && is_whitespace(s[start])
        invariant
            start <= s.len(),
            skip_space(s@, start as int) == skip_space(s@, 0),
        decreases s.len() - start,
    {
        start += 1;
    }
    let mut end: usize = s.len();
    while end > start && is_whitespace(s[end - 1])
        invariant
            start <= end <= s.len(),
            skip_space_back(s@, end as int, start as int) == skip_space_back(
                s@,
                s@.len() as int,
                start as int,
            ),
        decreases end,
    {
        end -= 1;
    }
    slice_of(s, start, end)
}

/// The index of the next line feed at or after `from`, or the length of `s`.
pub fn line_end(s: &Vec<char>, from: usize) -> (end: usize)
    requires
        from <= s.len(),
    ensures
        end == from + run_to_line_end(s@, from as int),
        from <= end <= s.len(),
{
    let mut end: usize = from;
    while end < s.len() && s[end] != '\n'
        invariant
            from <= end <= s.len(),
            end + run_to_line_end(s@, end as int) == from + run_to_line_end(s@, from as int),
        decreases s.len() - end,
    {
        end += 1;
    }
    end
}

/// The lines of `s`.
pub fn split_lines(s: &Vec<char>) -> (lines: Vec<Vec<char>>)
    ensures
        lines@.len() == lines_of(s@).len(),
        forall|i: int| 0 <= i < lines@.len() ==> (#[trigger] lines@[i])@ == lines_of(s@)[i],
{
    let mut lines: Vec<Vec<char>> = Vec::new();
    let mut from: usize = 0;
    let ghost mut done: Seq<Seq<char>> = Seq::empty();
    loop
        invariant_except_break
            from <= s.len(),
            done + lines_from(s@, from as int) == lines_of(s@),
            lines@.len() == done.len(),
            forall|i: int| 0 <= i < lines@.len() ==> (#[trigger] lines@[i])@ == done[i],
        ensures
            lines@.len() == lines_of(s@).len(),
            forall|i: int| 0 <= i < lines@.len() ==> (#[trigger] lines@[i])@ == lines_of(s@)[i],
        decreases s.len() - from,
    {
        let end = line_end(s, from);
        let line = slice_of(s, from, end);
        let ghost piece = line@;
        lines.push(line);
        if end >= s.len() {
            proof {
                assert(s@.subrange(from as int, end as int) == s@.subrange(
                    from as int,
                    s@.len() as int,
                ));
                assert(done + seq![piece] =~= lines_of(s@));
                assert forall|i: int| 0 <= i < lines@.len() implies (#[trigger] lines@[i])@
                    == lines_of(s@)[i] by {
                    if i < done.len() {
                        assert(lines@[i]@ == done[i]);
                    }
                }
            }
            break ;
        }
        proof {
            assert(done.push(piece) + lines_from(s@, end + 1) =~= done + (seq![piece] + lines_from(
                s@,
                end + 1,
            )));
            done = done.push(piece);
        }
        from = end + 1;
    }
    lines
}

/// Whether the characters of `v` are those of `text`.
pub fn same_text(v: &Vec<char>, text: &str) -> (same: bool)
    ensures
        same == (v@ == text@),
{
    let other = chars_of(text);
    if v.len() != other.len() {
        return false;
    }
    let mut i: usize = 0;
    while i < v.len()
        invariant
            i <= v.len(),
            v.len() == other.len(),
            other@ == text@,
            forall|k: int| 0 <= k < i ==> v@[k] == other@[k],
        decreases v.len() - i,
    {
        if v[i] != other[i] {
            return false;
        }
        i += 1;
    }
    assert(v@ =~= other@);
    true
}

/// The value of a decimal digit.
fn digit_of_char(c: char) -> (value: Option<u8>)
    ensures
        match value {
            Some(d) => digit_value(c) == Some(d as nat) && d < 10,
            None => digit_value(c) == None::<nat>,
        },
{
    if c == '0' {
        Some(0)
    } else if c == '1' {
        Some(1)
    } else if c == '2' {
        Some(2)
    } else if c == '3' {
        Some(3)
    } else if c == '4' {
        Some(4)
    } else if c == '5' {
        Some(5)
    } else if c == '6' {
        Some(6)
    } else if c == '7' {
        Some(7)
    } else if c == '8' {
        Some(8)
    } else if c == '9' {
        Some(9)
    } else {
        None
    }
}

/// A run of digits stands for no less than each of its beginnings, and for
/// nothing where one of its beginnings stands for nothing.
proof fn lemma_digits_grow(s: Seq<char>, k: int)
    requires
        0 <= k <= s.len(),
    ensures
        digits_value(s.take(k)) is None ==> digits_value(s) is None,
        digits_value(s) matches Some(whole) ==> (digits_value(s.take(k)) matches Some(part)
            && part <= whole),
    decreases s.len() - k,
{
    if k < s.len() {
        lemma_digits_grow(s, k + 1);
        assert(s.take(k + 1).drop_last() =~= s.take(k));
    } else {
        assert(s.take(k) =~= s);
    }
}

/// The number of at most `max` that the text stands for, if it stands for
/// one.
pub fn parse_unsigned(s: &Vec<char>, max: u64) -> (value: Option<u64>)
    ensures
        match value {
            Some(v) => parsed_unsigned(s@, max as nat) == Some(v as nat),
            None => parsed_unsigned(s@, max as nat) == None::<nat>,
        },
{
    let start: usize = if s.len() > 0 && s[0] == '+' {
        1
    } else {
        0
    };
    let digits = slice_of(s, start, s.len());
    assert(digits@ == if s@.len() > 0 && s@[0] == '+' {
        s@.drop_first()
    } else {
        s@
    }) by {
        assert(s@.subrange(0, s@.len() as int) =~= s@);
    }
    if digits.len() == 0 {
        return None;
    }
    let mut total: u64 = 0;
    let mut i: usize = 0;
    while i < digits.len()
        invariant
            i <= digits.len(),
            digits_value(digits@.take(i as int)) == Some(total as nat),
            total <= max,
            digits@.len() > 0,
            parsed_unsigned(s@, max as nat) == match digits_value(digits@) {
                Some(value) => if value <= max {
                    Some(value)
                } else {
                    None
                },
                None => None,
            },
        decreases digits.len() - i,
    {
        proof {
            lemma_digits_grow(digits@, i + 1);
            assert(digits@.take(i + 1).drop_last() =~= digits@.take(i as int));
            assert(digits@.take(i + 1).last() == digits@[i as int]);
        }
        match digit_of_char(digits[i]) {
            Some(d) => {
                let next: u128 = (total as u128) * 10 + (d as u128);
                if next > max as u128 {
                    return None;
                }
                total = next as u64;
            },
            None => {
                return None;
            },
        }
        i += 1;
    }
    assert(digits@.take(digits@.len() as int) =~= digits@);
    Some(total)
}

/// The 16-bit number that the text stands for, if it stands for one.
pub fn parse_u16(s: &Vec<char>) -> (value: Option<u16>)
    ensures
        value == parsed_u16(s@),
{
    match parse_unsigned(s, 65535) {
        Some(v) => Some(v as u16),
        None => None,
    }
}

/// The 64-bit number that the text stands for, if it stands for one.
pub fn parse_u64(s: &Vec<char>) -> (value: Option<u64>)
    ensures
        value == parsed_u64(s@),
{
    parse_unsigned(s, u64::MAX)
}

/// Whether two texts are the same.
pub fn text_eq(a: &str, b: &str) -> (same: bool)
    ensures
        same == (a@ == b@),
{
    same_text(&chars_of(a), b)
}

} // verus!
