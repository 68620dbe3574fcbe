//! Substring search and replacement over sequences of characters.
//!
//! Text is modelled as `Seq<char>`, the view of `str` and `String`. The
//! executable functions work on `Vec<char>` and are proved against the spec
//! functions of this module.

use crate::outside::push_char;
use vstd::prelude::*;
use vstd::string::*;

verus! {

/// `needle` stands in `hay` at index `i`.
pub open spec fn occurs_at(hay: Seq<char>, needle: Seq<char>, i: int) -> bool {
    &&& 0 <= i
    &&& i + needle.len() <= hay.len()
    &&& hay.subrange(i, i + needle.len()) == needle
}

/// `needle` stands somewhere in `hay`. The empty needle stands in every text.
pub open spec fn occurs_in(hay: Seq<char>, needle: Seq<char>) -> bool {
    exists|i: int| occurs_at(hay, needle, i)
}

/// The index of the first occurrence of `needle` in `hay` at or after `pos`,
/// or `hay.len()` where there is none.
pub open spec fn first_match_from(hay: Seq<char>, needle: Seq<char>, pos: int) -> int
    decreases hay.len() - pos,
{
    if pos < 0 || pos >= hay.len() {
        hay.len() as int
    } else if occurs_at(hay, needle, pos) {
        pos
    } else {
        first_match_from(hay, needle, pos + 1)
    }
}

/// What remains to be written when a left-to-right replacement of `needle` by
/// `with` has reached index `pos` of `hay`.
///
/// Matches are taken leftmost first and do not overlap. An empty needle matches
/// before every character and once more at the end.
pub open spec fn replace_from(hay: Seq<char>, needle: Seq<char>, with: Seq<char>, pos: int) -> Seq<
    char,
>
    decreases hay.len() - pos,
{
    if pos < 0 || pos >= hay.len() {
        if needle.len() == 0 {
            with
        } else {
            Seq::empty()
        }
    } else if needle.len() == 0 {
        with + seq![hay[pos]] + replace_from(hay, needle, with, pos + 1)
    } else if occurs_at(hay, needle, pos) {
        with + replace_from(hay, needle, with, pos + needle.len())
    } else {
        seq![hay[pos]] + replace_from(hay, needle, with, pos + 1)
    }
}

/// `hay` with every occurrence of `needle` replaced by `with`.
pub open spec fn replace_all(hay: Seq<char>, needle: Seq<char>, with: Seq<char>) -> Seq<char> {
    replace_from(hay, needle, with, 0)
}

/// `i` is the index of the first `c` in `s`.
pub open spec fn is_first_index(s: Seq<char>, c: char, i: int) -> bool {
    &&& 0 <= i < s.len()
    &&& s[i] == c
    &&& forall|k: int| 0 <= k < i ==> s[k] != c
}

/// The index of the first `c` in `s`, if there is one.
pub open spec fn index_of(s: Seq<char>, c: char) -> Option<int> {
    if exists|i: int| is_first_index(s, c, i) {
        Some(choose|i: int| is_first_index(s, c, i))
    } else {
        None
    }
}

/// `q`, laid with its beginning `d` characters behind the beginning of
/// `mark` (before it, where `d` is negative), agrees with `mark` wherever the
/// two lie over each other.
pub open spec fn lies_across(q: Seq<char>, mark: Seq<char>, d: int) -> bool {
    forall|i: int| 0 <= i < q.len() && 0 <= i + d < mark.len() ==> q[i] == mark[i + d]
}

/// No occurrence of `q` can share a character with an inserted `mark`: in no
/// position in which the two would lie over each other do they agree. This
/// rules out that `q` stands inside `mark`, that `mark` stands inside `q`,
/// that `q` ends with a beginning of `mark`, and that it begins with an
/// ending of `mark`.
pub open spec fn avoids(q: Seq<char>, mark: Seq<char>) -> bool {
    &&& mark.len() > 0
    &&& q.len() > 0
    &&& forall|d: int| -q.len() < d < mark.len() ==> !#[trigger] lies_across(q, mark, d)
}

/// The first match at or after `pos` is an occurrence, and no occurrence
/// lies between `pos` and it.
pub proof fn lemma_first_match_from(hay: Seq<char>, needle: Seq<char>, pos: int)
    requires
        0 <= pos <= hay.len(),
        needle.len() > 0,
    ensures
        pos <= first_match_from(hay, needle, pos) <= hay.len(),
        first_match_from(hay, needle, pos) < hay.len() ==> occurs_at(
            hay,
            needle,
            first_match_from(hay, needle, pos),
        ),
        forall|k: int|
            pos <= k < first_match_from(hay, needle, pos) ==> !occurs_at(hay, needle, k),
    decreases hay.len() - pos,
{
    if pos < hay.len() && !occurs_at(hay, needle, pos) {
        lemma_first_match_from(hay, needle, pos + 1);
    }
}

/// A replacement writes the text up to the next match unchanged, then the
/// mark, then goes on behind the match.
pub proof fn lemma_replace_structure(hay: Seq<char>, needle: Seq<char>, with: Seq<char>, pos: int)
    requires
        0 <= pos <= hay.len(),
        needle.len() > 0,
    ensures
        ({
            let j = first_match_from(hay, needle, pos);
            replace_from(hay, needle, with, pos) == if j < hay.len() {
                hay.subrange(pos, j) + with + replace_from(hay, needle, with, j + needle.len())
            } else {
                hay.subrange(pos, hay.len() as int)
            }
        }),
    decreases hay.len() - pos,
{
    let j = first_match_from(hay, needle, pos);
    if pos >= hay.len() {
        assert(hay.subrange(pos, hay.len() as int) =~= Seq::<char>::empty());
    } else if occurs_at(hay, needle, pos) {
        assert(hay.subrange(pos, j) + with =~= with);
    } else {
        lemma_replace_structure(hay, needle, with, pos + 1);
        lemma_first_match_from(hay, needle, pos + 1);
        if j < hay.len() {
            let rest = replace_from(hay, needle, with, j + needle.len());
            assert(seq![hay[pos]] + (hay.subrange(pos + 1, j) + with + rest) =~= hay.subrange(
                pos,
                j,
            ) + with + rest);
        } else {
            assert(seq![hay[pos]] + hay.subrange(pos + 1, hay.len() as int) =~= hay.subrange(
                pos,
                hay.len() as int,
            ));
        }
    }
}

/// Replacing a needle that does not occur changes nothing.
pub proof fn lemma_replace_absent(hay: Seq<char>, needle: Seq<char>, with: Seq<char>)
    requires
        needle.len() > 0,
        !occurs_in(hay, needle),
    ensures
        replace_all(hay, needle, with) == hay,
{
    lemma_first_match_from(hay, needle, 0);
    lemma_replace_structure(hay, needle, with, 0);
    assert(hay.subrange(0, hay.len() as int) =~= hay);
}

/// An occurrence of `q` in `x + mark + y`, where `q` avoids `mark`, lies
/// wholly in `x` or wholly in `y`.
pub proof fn lemma_occurrence_beside_mark(
    x: Seq<char>,
    mark: Seq<char>,
    y: Seq<char>,
    q: Seq<char>,
    a: int,
)
    requires
        avoids(q, mark),
        occurs_at(x + mark + y, q, a),
    ensures
        (a + q.len() <= x.len() && occurs_at(x, q, a)) || (a >= x.len() + mark.len() && occurs_at(
            y,
            q,
            a - x.len() - mark.len(),
        )),
{
    let s = x + mark + y;
    let n = q.len() as int;
    let lx = x.len() as int;
    let lm = mark.len() as int;
    assert(s.subrange(a, a + n) == q);
    if a + n <= lx {
        assert(x.subrange(a, a + n) =~= s.subrange(a, a + n));
    } else if a >= lx + lm {
        assert(y.subrange(a - lx - lm, a - lx - lm + n) =~= s.subrange(a, a + n));
    } else {
        let d = a - lx;
        assert(lies_across(q, mark, d)) by {
            assert forall|i: int| 0 <= i < n && 0 <= i + d < lm implies q[i] == mark[i + d] by {
                assert(s.subrange(a, a + n)[i] == s[a + i]);
                assert(s[lx + (i + d)] == mark[i + d]);
            }
        }
        assert(false);
    }
}

/// A replacement leaves no occurrence of `q` behind, where `q` avoids the mark
/// and is the needle itself or did not occur before.
pub proof fn lemma_replace_clears(
    hay: Seq<char>,
    needle: Seq<char>,
    with: Seq<char>,
    q: Seq<char>,
    pos: int,
)
    requires
        0 <= pos <= hay.len(),
        needle.len() > 0,
        avoids(q, with),
        q == needle || !occurs_in(hay.subrange(pos, hay.len() as int), q),
    ensures
        !occurs_in(replace_from(hay, needle, with, pos), q),
    decreases hay.len() - pos,
{
    let len = hay.len() as int;
    let j = first_match_from(hay, needle, pos);
    let out = replace_from(hay, needle, with, pos);
    lemma_first_match_from(hay, needle, pos);
    lemma_replace_structure(hay, needle, with, pos);
    let gap = hay.subrange(pos, j);
    assert forall|a: int| occurs_at(gap, q, a) implies false by {
        assert(hay.subrange(pos + a, pos + a + q.len()) =~= gap.subrange(a, a + q.len()));
        if q == needle {
            assert(occurs_at(hay, needle, pos + a));
        } else {
            assert(hay.subrange(pos, len).subrange(a, a + q.len()) =~= gap.subrange(
                a,
                a + q.len(),
            ));
            assert(occurs_at(hay.subrange(pos, len), q, a));
        }
    }
    if j < len {
        let next = j + needle.len();
        let rest = replace_from(hay, needle, with, next);
        if q != needle {
            assert forall|a: int| occurs_at(hay.subrange(next, len), q, a) implies false by {
                assert(hay.subrange(pos, len).subrange(a + next - pos, a + next - pos + q.len())
                    =~= hay.subrange(next, len).subrange(a, a + q.len()));
                assert(occurs_at(hay.subrange(pos, len), q, a + next - pos));
            }
        }
        lemma_replace_clears(hay, needle, with, q, next);
        assert forall|a: int| occurs_at(out, q, a) implies false by {
            lemma_occurrence_beside_mark(gap, with, rest, q, a);
        }
    } else {
        assert(out == gap);
    }
}

/// The characters of `s`.
pub fn chars_of(s: &str) -> (v: Vec<char>)
    ensures
        v@ == s@,
{
    let mut v: Vec<char> = Vec::new();
    for c in it: s.chars()
        invariant
            v@ == it.seq().take(it.index() as int),
            it.seq() == s@,
    {
        v.push(c);
    }
    v
}

/// The string made of the characters of `v`.
pub fn string_of(v: &Vec<char>) -> (s: String)
    ensures
        s@ == v@,
{
    let mut s = String::new();
    let mut i: usize = 0;
    while i < v.len()
        invariant
            i <= v.len(),
            s@ == v@.take(i as int),
        decreases v.len() - i,
    {
        push_char(&mut s, v[i]);
        i += 1;
    }
    s
}

/// Appends the characters of `src` to `out`.
pub fn push_all(out: &mut Vec<char>, src: &Vec<char>)
    ensures
        final(out)@ == old(out)@ + src@,
{
    let mut i: usize = 0;
    while i < src.len()
        invariant
            i <= src.len(),
            out@ == old(out)@ + src@.take(i as int),
        decreases src.len() - i,
    {
        out.push(src[i]);
        i += 1;
    }
}

/// The characters of `v` from index `from` up to `to`.
pub fn slice_of(v: &Vec<char>, from: usize, to: usize) -> (r: Vec<char>)
    requires
        from <= to <= v.len(),
    ensures
        r@ == v@.subrange(from as int, to as int),
{
    let mut r: Vec<char> = Vec::new();
    let mut i: usize = from;
    while i < to
        invariant
            from <= i <= to,
            to <= v.len(),
            r@ == v@.subrange(from as int, i as int),
        decreases to - i,
    {
        r.push(v[i]);
        i += 1;
    }
    r
}

/// Whether `needle` stands in `hay` at index `at`.
pub fn matches_at(hay: &Vec<char>, needle: &Vec<char>, at: usize) -> (r: bool)
    ensures
        r == occurs_at(hay@, needle@, at as int),
{
    if needle.len() > hay.len() || at > hay.len() - needle.len() {
        return false;
    }
    let mut k: usize = 0;
    while k < needle.len()
        invariant
            k <= needle.len(),
            at + needle.len() <= hay.len(),
            forall|j: int| 0 <= j < k ==> hay@[at + j] == needle@[j],
        decreases needle.len() - k,
    {
        if hay[at + k] != needle[k] {
            assert(hay@.subrange(at as int, at + needle.len())[k as int] == hay@[at + k]);
            return false;
        }
        k += 1;
    }
    assert(hay@.subrange(at as int, at + needle.len()) =~= needle@);
    true
}

/// The index of the first occurrence of `needle` in `hay` at or after `from`.
pub fn find_from(hay: &Vec<char>, needle: &Vec<char>, from: usize) -> (r: Option<usize>)
    ensures
        match r {
            Some(i) => from <= i && occurs_at(hay@, needle@, i as int) && forall|k: int|
                from <= k < i ==> !occurs_at(hay@, needle@, k),
            None => forall|k: int| from <= k ==> !occurs_at(hay@, needle@, k),
        },
{
    let mut i: usize = from;
    while i < hay.len()
        invariant
            from <= i,
            forall|k: int| from <= k < i ==> !occurs_at(hay@, needle@, k),
        decreases hay.len() - i,
    {
        if matches_at(hay, needle, i) {
            return Some(i);
        }
        i += 1;
    }
    if from <= hay.len() && matches_at(hay, needle, hay.len()) {
        return Some(hay.len());
    }
    None
}

/// Whether `needle` stands somewhere in `hay`.
pub fn contains_chars(hay: &Vec<char>, needle: &Vec<char>) -> (r: bool)
    ensures
        r == occurs_in(hay@, needle@),
{
    find_from(hay, needle, 0).is_some()
}

/// The index of the first `c` in `v`.
pub fn position_of(v: &Vec<char>, c: char) -> (r: Option<usize>)
    ensures
        match r {
            Some(i) => index_of(v@, c) == Some(i as int) && i < v.len(),
            None => index_of(v@, c) == None::<int>,
        },
{
    let mut i: usize = 0;
    while i < v.len()
        invariant
            i <= v.len(),
            forall|k: int| 0 <= k < i ==> v@[k] != c,
        decreases v.len() - i,
    {
        if v[i] == c {
            proof {
                lemma_index_of_first(v@, c, i as int);
            }
            return Some(i);
        }
        i += 1;
    }
    None
}

/// The first index that holds `c` is the value of `index_of`.
pub proof fn lemma_index_of_first(s: Seq<char>, c: char, i: int)
    requires
        is_first_index(s, c, i),
    ensures
        index_of(s, c) == Some(i),
{
    let j = choose|j: int| is_first_index(s, c, j);
    assert(is_first_index(s, c, j));
}

/// `hay` with every occurrence of `needle` replaced by `with`.
pub fn replace_chars(hay: &Vec<char>, needle: &Vec<char>, with: &Vec<char>) -> (out: Vec<char>)
    ensures
        out@ == replace_all(hay@, needle@, with@),
{
    let mut out: Vec<char> = Vec::new();
    let mut pos: usize = 0;
    while pos < hay.len()
        invariant
            pos <= hay.len(),
            out@ + replace_from(hay@, needle@, with@, pos as int) == replace_all(
                hay@,
                needle@,
                with@,
            ),
        decreases hay.len() - pos,
    {
        let ghost before = out@;
        if needle.len() == 0 {
            push_all(&mut out, with);
            out.push(hay[pos]);
            assert(out@ + replace_from(hay@, needle@, with@, pos + 1) =~= before + (with@
                + seq![hay@[pos as int]] + replace_from(hay@, needle@, with@, pos + 1)));
            pos += 1;
        } else if matches_at(hay, needle, pos) {
            push_all(&mut out, with);
            assert(out@ + replace_from(hay@, needle@, with@, pos + needle.len()) =~= before + (with@
                + replace_from(hay@, needle@, with@, pos + needle.len())));
            pos += needle.len();
        } else {
            out.push(hay[pos]);
            assert(out@ + replace_from(hay@, needle@, with@, pos + 1) =~= before + (seq![
                hay@[pos as int],
            ] + replace_from(hay@, needle@, with@, pos + 1)));
            pos += 1;
        }
    }
    let ghost before = out@;
    if needle.len() == 0 {
        push_all(&mut out, with);
    }
    assert(out@ =~= before + replace_from(hay@, needle@, with@, pos as int));
    out
}


/// The number of bytes that a text takes in UTF-8.
pub open spec fn utf8_len(s: Seq<char>) -> nat {
    vstd::utf8::encode_utf8(s).len()
}

/// The number of bytes that a text takes in UTF-8.
pub fn byte_len(s: &str) -> (n: usize)
    ensures
        n == utf8_len(s@),
{
    s.as_bytes().len()
}

/// The number of bytes that the characters of `v` take in UTF-8.
pub fn byte_len_of(v: &Vec<char>) -> (n: usize)
    ensures
        n == utf8_len(v@),
{
    byte_len(string_of(v).as_str())
}

/// The texts of a list of strings.
pub open spec fn texts(list: Seq<String>) -> Seq<Seq<char>> {
    Seq::new(list.len(), |i: int| list[i]@)
}

/// The text of a string that may be missing.
pub open spec fn text_of(value: Option<String>) -> Option<Seq<char>> {
    match value {
        Some(s) => Some(s@),
        None => None,
    }
}

/// The text `a` followed by the text `b`.
pub fn join(a: &str, b: &str) -> (r: String)
    ensures
        r@ == a@ + b@,
{
    let mut r = a.to_owned();
    r.append(b);
    r
}

/// The text `a` followed by `b`, then by `c`.
pub fn join3(a: &str, b: &str, c: &str) -> (r: String)
    ensures
        r@ == a@ + b@ + c@,
{
    let mut r = a.to_owned();
    r.append(b);
    r.append(c);
    r
}

/// The character of a decimal digit.
pub open spec fn digit_char(d: int) -> char {
    if d == 0 {
        '0'
    } else if d == 1 {
        '1'
    } else if d == 2 {
        '2'
    } else if d == 3 {
        '3'
    } else if d == 4 {
        '4'
    } else if d == 5 {
        '5'
    } else if d == 6 {
        '6'
    } else if d == 7 {
        '7'
    } else if d == 8 {
        '8'
    } else {
        '9'
    }
}

/// A natural number in decimal, without leading zeros.
pub open spec fn decimal(n: nat) -> Seq<char>
    decreases n,
{
    if n < 10 {
        seq![digit_char(n as int)]
    } else {
        decimal(n / 10).push(digit_char((n % 10) as int))
    }
}

/// An integer in decimal, with a `-` in front where it is negative.
pub open spec fn signed_decimal(n: int) -> Seq<char> {
    if n < 0 {
        seq!['-'] + decimal((-n) as nat)
    } else {
        decimal(n as nat)
    }
}

/// The character of a decimal digit.
fn digit_of(d: u64) -> (c: char)
    requires
        d < 10,
    ensures
        c == digit_char(d as int),
{
    if d == 0 {
        '0'
    } else if d == 1 {
        '1'
    } else if d == 2 {
        '2'
    } else if d == 3 {
        '3'
    } else if d == 4 {
        '4'
    } else if d == 5 {
        '5'
    } else if d == 6 {
        '6'
    } else if d == 7 {
        '7'
    } else if d == 8 {
        '8'
    } else {
        '9'
    }
}

/// The decimal digits of `n`.
pub fn decimal_chars(n: u64) -> (r: Vec<char>)
    ensures
        r@ == decimal(n as nat),
    decreases n,
{
    if n < 10 {
        let mut r: Vec<char> = Vec::new();
        r.push(digit_of(n));
        r
    } else {
        let mut r = decimal_chars(n / 10);
        r.push(digit_of(n % 10));
        r
    }
}

/// `n` written in decimal.
pub fn decimal_string(n: u64) -> (r: String)
    ensures
        r@ == decimal(n as nat),
{
    string_of(&decimal_chars(n))
}

/// `n` written in decimal, with its sign where it is negative.
pub fn signed_decimal_string(n: i32) -> (r: String)
    ensures
        r@ == signed_decimal(n as int),
{
    if n < 0 {
        let magnitude: u64 = (-(n as i64)) as u64;
        let mut chars: Vec<char> = Vec::new();
        chars.push('-');
        let digits = decimal_chars(magnitude);
        push_all(&mut chars, &digits);
        string_of(&chars)
    } else {
        string_of(&decimal_chars(n as u64))
    }
}

} // verus!
