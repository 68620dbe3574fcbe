//! Reading the answer of the system's `ping`.
//!
//! The round-trip time is found as text; whether the text is a number is for
//! the caller to find out. The answers of Windows differ from the others:
//! they may be worded in Chinese, write no space before `ms`, and give an
//! upper bound (`time<1ms`) for a short time.

use crate::scan::{digit_value, line_end, run_to_line_end, trim_chars, trimmed};
use crate::text::{
    chars_of, find_from, first_match_from, join, lemma_first_match_from, occurs_at, occurs_in,
    slice_of, string_of,
};
use vstd::prelude::*;

verus! {

/// What stands before the next occurrence of `mark` in `s`, or all of `s`
/// where there is none.
pub open spec fn before_mark(s: Seq<char>, mark: Seq<char>) -> Seq<char> {
    s.subrange(0, first_match_from(s, mark, 0))
}

/// What stands behind the first occurrence of `mark` in `s`.
pub open spec fn behind_mark(s: Seq<char>, mark: Seq<char>) -> Seq<char> {
    s.subrange(first_match_from(s, mark, 0) + mark.len(), s.len() as int)
}

/// The text of the round-trip time in the answer of `ping`: what stands
/// between the first `time=` and the next ` ms`, or the next `time=` where
/// that comes first, without the space around it.
pub open spec fn latency_in(output: Seq<char>) -> Option<Seq<char>> {
    if occurs_in(output, "time="@) {
        Some(trimmed(before_mark(before_mark(behind_mark(output, "time="@), "time="@), " ms"@)))
    } else {
        None
    }
}

/// What stands before the next occurrence of `mark` in `s`.
fn cut_before(s: &Vec<char>, mark: &Vec<char>) -> (r: Vec<char>)
    requires
        mark@.len() > 0,
    ensures
        r@ == before_mark(s@, mark@),
{
    proof {
        lemma_first_match_from(s@, mark@, 0);
    }
    match find_from(s, mark, 0) {
        Some(at) => {
            assert(first_match_from(s@, mark@, 0) == at) by {
                lemma_first_is(s@, mark@, at as int);
            }
            slice_of(s, 0, at)
        },
        None => {
            assert(first_match_from(s@, mark@, 0) == s@.len());
            slice_of(s, 0, s.len())
        },
    }
}

/// An occurrence that no occurrence comes before is the first match.
proof fn lemma_first_is(s: Seq<char>, mark: Seq<char>, at: int)
    requires
        mark.len() > 0,
        occurs_at(s, mark, at),
        forall|k: int| 0 <= k < at ==> !occurs_at(s, mark, k),
    ensures
        first_match_from(s, mark, 0) == at,
{
    lemma_first_match_from(s, mark, 0);
}

/// The text of the round-trip time in the answer of `ping`, if the answer
/// holds one. Whether the text is a number is for the caller to find out.
pub fn latency_text(output: &str) -> (text: Option<String>)
    ensures
        match text {
            Some(t) => latency_in(output@) == Some(t@),
            None => latency_in(output@) == None::<Seq<char>>,
        },
{
    let chars = chars_of(output);
    let time_mark = chars_of("time=");
    let ms_mark = chars_of(" ms");
    proof {
        reveal_strlit("time=");
        reveal_strlit(" ms");
        lemma_first_match_from(chars@, time_mark@, 0);
    }
    match find_from(&chars, &time_mark, 0) {
        Some(at) => {
            proof {
                lemma_first_is(chars@, time_mark@, at as int);
            }
            let end = chars.len();
            assert(at + time_mark@.len() <= end);
            let behind = slice_of(&chars, at + time_mark.len(), end);
            let piece = cut_before(&behind, &time_mark);
            let number = cut_before(&piece, &ms_mark);
            Some(string_of(&trim_chars(&number)))
        },
        None => None,
    }
}

/// A character of a number: a decimal digit or a point.
pub open spec fn number_char(c: char) -> bool {
    digit_value(c) is Some || c == '.'
}

/// The characters of a number among those of `s`, in their order.
pub open spec fn number_chars(s: Seq<char>) -> Seq<char> {
    s.filter(|c: char| number_char(c))
}

/// The digits and points that stand between the first `mark` and the next
/// `ms`, where both are there and there is at least one such character.
pub open spec fn marked_number(output: Seq<char>, mark: Seq<char>) -> Option<Seq<char>> {
    if occurs_in(output, mark) && occurs_in(behind_mark(output, mark), "ms"@) {
        let kept = number_chars(before_mark(behind_mark(output, mark), "ms"@));
        if kept.len() > 0 {
            Some(kept)
        } else {
            None
        }
    } else {
        None
    }
}

/// A text that may be a round-trip time.
pub struct LatencyReading {
    /// The digits and points that were found.
    pub text: String,
    /// Whether the answer gave the number as an upper bound.
    pub at_most: bool,
}

/// The marks behind which an answer of Windows gives the time, in the order
/// in which they are tried: first the exact times, then the upper bounds.
pub open spec fn windows_mark(i: int) -> Seq<char> {
    if i == 0 {
        "时间="@
    } else if i == 1 {
        "time="@
    } else if i == 2 {
        "时间<"@
    } else {
        "time<"@
    }
}

/// The readings behind the first `n` marks.
pub open spec fn readings_upto(output: Seq<char>, n: int) -> Seq<(Seq<char>, bool)>
    decreases n,
{
    if n <= 0 {
        Seq::empty()
    } else {
        match marked_number(output, windows_mark(n - 1)) {
            Some(text) => readings_upto(output, n - 1).push((text, n - 1 >= 2)),
            None => readings_upto(output, n - 1),
        }
    }
}

/// The readings as texts and flags.
pub open spec fn readings_of(list: Seq<LatencyReading>) -> Seq<(Seq<char>, bool)> {
    Seq::new(list.len(), |i: int| (list[i].text@, list[i].at_most))
}

/// The digits and points among the characters of `s`.
fn keep_number_chars(s: &Vec<char>) -> (kept: Vec<char>)
    ensures
        kept@ == number_chars(s@),
{
    let mut kept: Vec<char> = Vec::new();
    let mut i: usize = 0;
    assert(number_chars(s@.take(0)) =~= Seq::<char>::empty()) by {
        reveal(Seq::filter);
    }
    while i < s.len()
        invariant
            i <= s.len(),
            kept@ == number_chars(s@.take(i as int)),
        decreases s.len() - i,
    {
        proof {
            assert(s@.take(i + 1).drop_last() =~= s@.take(i as int));
            reveal(Seq::filter);
        }
        let c = s[i];
        if c == '.' || c == '0' || c == '1' || c == '2' || c == '3' || c == '4' || c == '5' || c
            == '6' || c == '7' || c == '8' || c == '9' {
            kept.push(c);
        }
        i += 1;
    }
    assert(s@.take(s@.len() as int) =~= s@);
    kept
}

/// The digits and points between the first `mark` and the next `ms`.
fn read_behind(output: &Vec<char>, mark: &str) -> (text: Option<Vec<char>>)
    requires
        mark@.len() > 0,
    ensures
        match text {
            Some(t) => marked_number(output@, mark@) == Some(t@),
            None => marked_number(output@, mark@) == None::<Seq<char>>,
        },
{
    let mark_chars = chars_of(mark);
    let ms = chars_of("ms");
    proof {
        reveal_strlit("ms");
    }
    match find_from(output, &mark_chars, 0) {
        Some(at) => {
            proof {
                lemma_first_is(output@, mark_chars@, at as int);
            }
            let end = output.len();
            assert(at + mark_chars@.len() <= end);
            let after = slice_of(output, at + mark_chars.len(), end);
            match find_from(&after, &ms, 0) {
                Some(_) => {
                    let kept = keep_number_chars(&cut_before(&after, &ms));
                    if kept.len() > 0 {
                        Some(kept)
                    } else {
                        None
                    }
                },
                None => None,
            }
        },
        None => None,
    }
}

/// The mark of index `i`.
fn windows_mark_text(i: usize) -> (mark: &'static str)
    requires
        i < 4,
    ensures
        mark@ == windows_mark(i as int),
        mark@.len() > 0,
{
    proof {
        reveal_strlit("时间=");
        reveal_strlit("time=");
        reveal_strlit("时间<");
        reveal_strlit("time<");
    }
    if i == 0 {
        "时间="
    } else if i == 1 {
        "time="
    } else if i == 2 {
        "时间<"
    } else {
        "time<"
    }
}

/// The texts in an answer of Windows that may be the round-trip time, in the
/// order in which they are to be tried: behind each mark, the digits and
/// points up to the next `ms`.
pub fn windows_latency_readings(output: &str) -> (readings: Vec<LatencyReading>)
    ensures
        readings_of(readings@) == readings_upto(output@, 4),
{
    let chars = chars_of(output);
    let mut readings: Vec<LatencyReading> = Vec::new();
    let mut i: usize = 0;
    assert(readings_of(readings@) =~= readings_upto(output@, 0));
    while i < 4
        invariant
            i <= 4,
            chars@ == output@,
            readings_of(readings@) == readings_upto(output@, i as int),
        decreases 4 - i,
    {
        let ghost before = readings@;
        match read_behind(&chars, windows_mark_text(i)) {
            Some(text) => {
                readings.push(LatencyReading { text: string_of(&text), at_most: i >= 2 });
                assert(readings_of(readings@) =~= readings_of(before).push((text@, i >= 2)));
            },
            None => {},
        }
        i += 1;
    }
    readings
}

/// A byte that is a space or a tab.
pub open spec fn blank_byte(b: u8) -> bool {
    b == 32 || b == 9
}

/// A byte that is a decimal digit or a point.
pub open spec fn number_byte(b: u8) -> bool {
    (48 <= b <= 57) || b == 46
}

/// A byte of a run: a blank one, or one of a number.
pub open spec fn run_byte(b: u8, blank: bool) -> bool {
    if blank {
        blank_byte(b)
    } else {
        number_byte(b)
    }
}

/// The index down to which the bytes before `to` are all blank, or all of a
/// number.
pub open spec fn run_start(bytes: Seq<u8>, to: int, blank: bool) -> int
    decreases to,
{
    if 0 < to <= bytes.len() && run_byte(bytes[to - 1], blank) {
        run_start(bytes, to - 1, blank)
    } else {
        to
    }
}

/// Where the number before the `ms` at index `i` begins: before the `ms`
/// stand blanks, if any, and before them the number.
pub open spec fn number_start(bytes: Seq<u8>, i: int) -> int {
    run_start(bytes, run_start(bytes, i, true), false)
}

/// At index `i` stands an `ms` with a number before it, and before the number
/// a `=` or a `<`. An `ms` at the very end of the bytes does not count.
pub open spec fn is_timed_at(bytes: Seq<u8>, i: int) -> bool {
    &&& 0 <= i
    &&& i + 2 < bytes.len()
    &&& bytes[i] == 109
    &&& bytes[i + 1] == 115
    &&& number_start(bytes, i) < run_start(bytes, i, true)
    &&& number_start(bytes, i) > 0
    &&& (bytes[number_start(bytes, i) - 1] == 61 || bytes[number_start(bytes, i) - 1] == 60)
}

/// The spans before the first `n` indices at which a time stands: each from
/// the beginning of the number up to its `ms`.
pub open spec fn spans_upto(bytes: Seq<u8>, n: int) -> Seq<(int, int)>
    decreases n,
{
    if n <= 0 {
        Seq::empty()
    } else if is_timed_at(bytes, n - 1) {
        spans_upto(bytes, n - 1).push((number_start(bytes, n - 1), n - 1))
    } else {
        spans_upto(bytes, n - 1)
    }
}

/// The spans as pairs of indices.
pub open spec fn spans_of(list: Seq<(usize, usize)>) -> Seq<(int, int)> {
    Seq::new(list.len(), |i: int| (list[i].0 as int, list[i].1 as int))
}

/// Whether a byte is blank, or is one of a number.
fn is_run_byte(b: u8, blank: bool) -> (r: bool)
    ensures
        r == run_byte(b, blank),
{
    if blank {
        b == 32 || b == 9
    } else {
        (48 <= b && b <= 57) || b == 46
    }
}

/// The index down to which the bytes before `to` are all blank, or all of
/// a number.
fn start_of_run(bytes: &[u8], to: usize, blank: bool) -> (start: usize)
    requires
        to <= bytes@.len(),
    ensures
        start == run_start(bytes@, to as int, blank),
        start <= to,
{
    let mut start: usize = to;
    while start > 0 && is_run_byte(bytes[start - 1], blank)
        invariant
            start <= to <= bytes@.len(),
            run_start(bytes@, start as int, blank) == run_start(bytes@, to as int, blank),
        decreases start,
    {
        start -= 1;
    }
    start
}

/// The spans of the bytes of an answer that may hold the round-trip time, in
/// the order in which they are to be tried. A span runs from the beginning
/// of a number to the `ms` behind it, blanks between the two included.
pub fn latency_spans(bytes: &[u8]) -> (spans: Vec<(usize, usize)>)
    ensures
        spans_of(spans@) == spans_upto(bytes@, bytes@.len() as int),
        forall|k: int|
            0 <= k < spans@.len() ==> (#[trigger] spans@[k]).0 <= spans@[k].1 <= bytes@.len(),
{
    let mut spans: Vec<(usize, usize)> = Vec::new();
    let len = bytes.len();
    let mut i: usize = 0;
    assert(spans_of(spans@) =~= spans_upto(bytes@, 0));
    while i < len
        invariant
            i <= len,
            len == bytes@.len(),
            spans_of(spans@) == spans_upto(bytes@, i as int),
            forall|k: int|
                0 <= k < spans@.len() ==> (#[trigger] spans@[k]).0 <= spans@[k].1 <= bytes@.len(),
        decreases len - i,
    {
        let ghost before = spans@;
        if len - i > 2 && bytes[i] == 109 && bytes[i + 1] == 115 {
            let blanks = start_of_run(bytes, i, true);
            let start = start_of_run(bytes, blanks, false);
            if start < blanks && start > 0 && (bytes[start - 1] == 61 || bytes[start - 1] == 60) {
                spans.push((start, i));
                assert(spans_of(spans@) =~= spans_of(before).push((start as int, i as int)));
            }
        }
        i += 1;
    }
    spans
}

/// The first line of a text: what stands before its first line feed, without
/// a carriage return before that line feed. A text without characters has no
/// first line.
pub open spec fn first_line(text: Seq<char>) -> Option<Seq<char>> {
    let end = run_to_line_end(text, 0) as int;
    if text.len() == 0 {
        None
    } else if end < text.len() && end > 0 && text[end - 1] == '\r' {
        Some(text.subrange(0, end - 1))
    } else {
        Some(text.subrange(0, end))
    }
}

/// What is reported of a `ping` that has failed: the first line of what it
/// wrote to its error stream, or, where it wrote nothing there, of what it
/// wrote to its output.
pub open spec fn ping_failure(stdout: Seq<char>, stderr: Seq<char>) -> Seq<char> {
    let told = if stderr.len() > 0 {
        stderr
    } else {
        stdout
    };
    "Ping failed: "@ + match first_line(told) {
        Some(line) => line,
        None => "Unknown error"@,
    }
}

/// What is reported of a `ping` that has failed.
pub fn ping_failure_text(stdout: &str, stderr: &str) -> (text: String)
    ensures
        text@ == ping_failure(stdout@, stderr@),
{
    let errors = chars_of(stderr);
    let told = if errors.len() > 0 {
        errors
    } else {
        chars_of(stdout)
    };
    if told.len() == 0 {
        return join("Ping failed: ", "Unknown error");
    }
    let end = line_end(&told, 0);
    let line = if end < told.len() && end > 0 && told[end - 1] == '\r' {
        slice_of(&told, 0, end - 1)
    } else {
        slice_of(&told, 0, end)
    };
    join("Ping failed: ", string_of(&line).as_str())
}

} // verus!
