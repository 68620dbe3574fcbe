//! Redaction of a secret token from log lines.

use crate::text::{
    avoids, byte_len, byte_len_of, chars_of, index_of, is_first_index, lemma_replace_absent,
    lemma_replace_clears, lies_across, occurs_at, occurs_in, position_of, replace_all,
    replace_chars, slice_of, string_of, utf8_len,
};
use vstd::prelude::*;

verus! {

/// What is written in place of the whole secret.
pub open spec fn token_mark() -> Seq<char> {
    "***TOKEN***"@
}

/// What is written in place of a part or a prefix of the secret.
pub open spec fn part_mark() -> Seq<char> {
    "***"@
}

/// The bytes of the shortest part of a dotted secret that is redacted on its
/// own.
pub const MIN_PART_LEN: usize = 6;

/// The bytes of the shortest prefix of the secret that is redacted on its
/// own.
pub const MIN_PREFIX_LEN: usize = 8;

/// The bytes of the shortest secret whose prefixes are redacted.
pub const MIN_LEN_FOR_PREFIXES: usize = 10;

/// `text` with `piece` redacted, where `piece` takes at least `min` bytes.
pub open spec fn redact_piece(text: Seq<char>, piece: Seq<char>, min: usize) -> Seq<char> {
    if utf8_len(piece) >= min {
        replace_all(text, piece, part_mark())
    } else {
        text
    }
}

/// `text` with the two parts of a dotted secret redacted: what stands before
/// the first `.` of the secret, then what stands behind it, each only where
/// it takes at least `MIN_PART_LEN` bytes.
pub open spec fn redact_parts(text: Seq<char>, secret: Seq<char>) -> Seq<char> {
    match index_of(secret, '.') {
        Some(d) => redact_piece(
            redact_piece(text, secret.subrange(0, d), MIN_PART_LEN),
            secret.subrange(d + 1, secret.len() as int),
            MIN_PART_LEN,
        ),
        None => text,
    }
}

/// `text` with the prefixes of the secret redacted, from the one of `w`
/// characters down to the one of one character, longest first, each only
/// where it takes at least `MIN_PREFIX_LEN` bytes.
pub open spec fn redact_prefixes_down(text: Seq<char>, secret: Seq<char>, w: int) -> Seq<char>
    decreases w,
{
    if w <= 0 {
        text
    } else {
        redact_prefixes_down(
            redact_piece(text, secret.subrange(0, w), MIN_PREFIX_LEN),
            secret,
            w - 1,
        )
    }
}

/// `text` with every prefix that takes at least `MIN_PREFIX_LEN` bytes
/// redacted, for a secret that takes at least `MIN_LEN_FOR_PREFIXES` bytes.
pub open spec fn redact_prefixes(text: Seq<char>, secret: Seq<char>) -> Seq<char> {
    if utf8_len(secret) >= MIN_LEN_FOR_PREFIXES {
        redact_prefixes_down(text, secret, secret.len() as int)
    } else {
        text
    }
}

/// A log line with the secret redacted: first the whole secret, then its two
/// parts, then its prefixes. Lengths are counted in bytes of UTF-8, and the
/// parts and prefixes are made of whole characters.
pub open spec fn sanitized(line: Seq<char>, secret: Seq<char>) -> Seq<char> {
    redact_prefixes(redact_parts(replace_all(line, secret, token_mark()), secret), secret)
}

/// `q` is one of the texts that the redaction of `secret` looks for: the
/// secret itself; a part before or behind its first `.` that takes at least
/// `MIN_PART_LEN` bytes; or, for a secret of at least `MIN_LEN_FOR_PREFIXES`
/// bytes, a prefix that takes at least `MIN_PREFIX_LEN` bytes.
pub open spec fn searched(secret: Seq<char>, q: Seq<char>) -> bool {
    ||| q == secret
    ||| (index_of(secret, '.') matches Some(d) && utf8_len(q) >= MIN_PART_LEN && (q
        == secret.subrange(0, d) || q == secret.subrange(d + 1, secret.len() as int)))
    ||| (utf8_len(secret) >= MIN_LEN_FOR_PREFIXES && utf8_len(q) >= MIN_PREFIX_LEN && exists|
        k: int,
    | 0 < k <= secret.len() && q == #[trigger] secret.subrange(0, k))
}

/// A text that no mark can run into: it is not empty, neither begins nor
/// ends with `*`, and does not hold three `*` in a row.
pub open spec fn clear_of_stars(q: Seq<char>) -> bool {
    &&& q.len() > 0
    &&& q.first() != '*'
    &&& q.last() != '*'
    &&& !occurs_in(q, part_mark())
}

/// The secrets that no redaction mark can bring back: the secret and every
/// text that is searched for it are clear of stars, and the secret does not
/// stand in the word `TOKEN`. A `*` inside the secret does no harm, as long
/// as no searched text begins or ends with it.
pub open spec fn redactable(secret: Seq<char>) -> bool {
    &&& !occurs_in("TOKEN"@, secret)
    &&& forall|q: Seq<char>| #[trigger] searched(secret, q) ==> clear_of_stars(q)
}

/// `piece` is looked for by the redaction, as one that takes at least `min`
/// bytes, and is absent from `text`; or it is not looked for.
spec fn piece_absent(text: Seq<char>, piece: Seq<char>, min: usize) -> bool {
    utf8_len(piece) >= min ==> !occurs_in(text, piece)
}

/// Every pattern that the redaction of `secret` looks for, but the prefixes of
/// at most `w` characters, is absent from `text`.
spec fn patterns_absent(text: Seq<char>, secret: Seq<char>, w: int) -> bool {
    &&& !occurs_in(text, secret)
    &&& index_of(secret, '.') matches Some(d) ==> {
        &&& piece_absent(text, secret.subrange(0, d), MIN_PART_LEN)
        &&& piece_absent(text, secret.subrange(d + 1, secret.len() as int), MIN_PART_LEN)
    }
    &&& utf8_len(secret) >= MIN_LEN_FOR_PREFIXES ==> forall|k: int|
        0 < k && w < k <= secret.len() ==> piece_absent(
            text,
            #[trigger] secret.subrange(0, k),
            MIN_PREFIX_LEN,
        )
}

/// The characters of the marks.
proof fn lemma_marks()
    ensures
        token_mark() =~= seq!['*', '*', '*', 'T', 'O', 'K', 'E', 'N', '*', '*', '*'],
        part_mark() =~= seq!['*', '*', '*'],
        "TOKEN"@ =~= seq!['T', 'O', 'K', 'E', 'N'],
{
    reveal_strlit("***TOKEN***");
    reveal_strlit("***");
    reveal_strlit("TOKEN");
}

/// A text that holds three `*` from index `at` on holds the part mark.
proof fn lemma_three_stars(q: Seq<char>, at: int)
    requires
        0 <= at,
        at + 3 <= q.len(),
        q[at] == '*',
        q[at + 1] == '*',
        q[at + 2] == '*',
    ensures
        occurs_in(q, part_mark()),
{
    lemma_marks();
    assert(q.subrange(at, at + 3) =~= part_mark());
    assert(occurs_at(q, part_mark(), at));
}

/// No occurrence of a text that is clear of stars can touch the part mark.
proof fn lemma_clear_avoids_part_mark(q: Seq<char>)
    requires
        clear_of_stars(q),
    ensures
        avoids(q, part_mark()),
{
    lemma_marks();
    let mark = part_mark();
    let n = q.len() as int;
    assert forall|d: int| -n < d < mark.len() implies !#[trigger] lies_across(q, mark, d) by {
        if lies_across(q, mark, d) {
            if d >= 0 {
                assert(q[0] == mark[0 + d]);
            } else if n + d >= 3 {
                assert(q[-d] == mark[-d + d]);
                assert(q[-d + 1] == mark[-d + 1 + d]);
                assert(q[-d + 2] == mark[-d + 2 + d]);
                lemma_three_stars(q, -d);
            } else {
                assert(q[n - 1] == mark[n - 1 + d]);
            }
        }
    }
}

/// No occurrence of a secret that is clear of stars and does not stand in
/// the word `TOKEN` can touch the token mark.
proof fn lemma_secret_avoids_token_mark(secret: Seq<char>)
    requires
        clear_of_stars(secret),
        !occurs_in("TOKEN"@, secret),
    ensures
        avoids(secret, token_mark()),
{
    lemma_marks();
    let mark = token_mark();
    let q = secret;
    let n = q.len() as int;
    assert forall|d: int| -n < d < mark.len() implies !#[trigger] lies_across(q, mark, d) by {
        if lies_across(q, mark, d) {
            if d >= 0 {
                if d <= 2 || d >= 8 {
                    assert(q[0] == mark[0 + d]);
                } else if d + n <= 8 {
                    assert forall|i: int| 0 <= i < n implies q[i] == "TOKEN"@[d - 3 + i] by {
                        assert(q[i] == mark[i + d]);
                    }
                    assert("TOKEN"@.subrange(d - 3, d - 3 + n) =~= q);
                    assert(occurs_at("TOKEN"@, q, d - 3));
                } else if d + n >= 11 {
                    assert(q[8 - d] == mark[8 - d + d]);
                    assert(q[9 - d] == mark[9 - d + d]);
                    assert(q[10 - d] == mark[10 - d + d]);
                    lemma_three_stars(q, 8 - d);
                } else {
                    assert(q[n - 1] == mark[n - 1 + d]);
                }
            } else if n + d >= 3 {
                assert(q[-d] == mark[-d + d]);
                assert(q[-d + 1] == mark[-d + 1 + d]);
                assert(q[-d + 2] == mark[-d + 2 + d]);
                lemma_three_stars(q, -d);
            } else {
                assert(q[n - 1] == mark[n - 1 + d]);
            }
        }
    }
}

/// A piece of a text without any `*` that holds a character is clear of
/// stars.
proof fn lemma_piece_is_clear(secret: Seq<char>, q: Seq<char>, at: int)
    requires
        !secret.contains('*'),
        0 <= at,
        at + q.len() <= secret.len(),
        q == secret.subrange(at, at + q.len()),
        q.len() > 0,
    ensures
        clear_of_stars(q),
{
    lemma_marks();
    assert forall|i: int| 0 <= i < q.len() implies q[i] != '*' by {
        assert(q[i] == secret[at + i]);
    }
    if occurs_in(q, part_mark()) {
        let a = choose|a: int| occurs_at(q, part_mark(), a);
        assert(q.subrange(a, a + 3)[0] == q[a]);
    }
}

/// A secret without any `*` that is not empty and does not stand in the
/// word `TOKEN` is redactable.
pub proof fn lemma_starless_is_redactable(secret: Seq<char>)
    requires
        secret.len() > 0,
        !secret.contains('*'),
        !occurs_in("TOKEN"@, secret),
    ensures
        redactable(secret),
{
    let n = secret.len() as int;
    assert forall|q: Seq<char>| #[trigger] searched(secret, q) implies clear_of_stars(q) by {
        if q == secret {
            assert(secret.subrange(0, n) =~= secret);
            lemma_piece_is_clear(secret, q, 0);
        } else {
            lemma_bytes_need_chars(q);
            match index_of(secret, '.') {
                Some(d) => {
                    assert(is_first_index(secret, '.', d));
                    if q == secret.subrange(0, d) {
                        lemma_piece_is_clear(secret, q, 0);
                    } else if q == secret.subrange(d + 1, n) {
                        lemma_piece_is_clear(secret, q, d + 1);
                    } else {
                        let k = choose|k: int| 0 < k <= n && q == #[trigger] secret.subrange(0, k);
                        lemma_piece_is_clear(secret, q, 0);
                    }
                },
                None => {
                    let k = choose|k: int| 0 < k <= n && q == #[trigger] secret.subrange(0, k);
                    lemma_piece_is_clear(secret, q, 0);
                },
            }
        }
    }
}

/// One redaction step keeps absent what was absent, and clears its needle.
proof fn lemma_step_keeps_absent(
    text: Seq<char>,
    needle: Seq<char>,
    q: Seq<char>,
)
    requires
        needle.len() > 0,
        clear_of_stars(q),
        q == needle || !occurs_in(text, q),
    ensures
        !occurs_in(replace_all(text, needle, part_mark()), q),
{
    lemma_clear_avoids_part_mark(q);
    assert(text.subrange(0, text.len() as int) =~= text);
    lemma_replace_clears(text, needle, part_mark(), q, 0);
}

/// A text that takes a byte holds a character.
proof fn lemma_bytes_need_chars(piece: Seq<char>)
    requires
        utf8_len(piece) > 0,
    ensures
        piece.len() > 0,
{
}

/// Every prefix of the secret that takes enough bytes is searched for, where
/// the secret is long enough.
proof fn lemma_prefix_searched(secret: Seq<char>, k: int)
    requires
        0 < k <= secret.len(),
        utf8_len(secret) >= MIN_LEN_FOR_PREFIXES,
        utf8_len(secret.subrange(0, k)) >= MIN_PREFIX_LEN,
    ensures
        searched(secret, secret.subrange(0, k)),
{
}

/// One redaction step with a searched text keeps `patterns_absent`.
proof fn lemma_step_keeps_patterns(
    text: Seq<char>,
    secret: Seq<char>,
    needle: Seq<char>,
    w: int,
)
    requires
        redactable(secret),
        needle.len() > 0,
        patterns_absent(text, secret, w),
    ensures
        patterns_absent(replace_all(text, needle, part_mark()), secret, w),
{
    let out = replace_all(text, needle, part_mark());
    assert(searched(secret, secret));
    lemma_step_keeps_absent(text, needle, secret);
    match index_of(secret, '.') {
        Some(d) => {
            let first = secret.subrange(0, d);
            let second = secret.subrange(d + 1, secret.len() as int);
            if utf8_len(first) >= MIN_PART_LEN {
                assert(searched(secret, first));
                lemma_step_keeps_absent(text, needle, first);
            }
            if utf8_len(second) >= MIN_PART_LEN {
                assert(searched(secret, second));
                lemma_step_keeps_absent(text, needle, second);
            }
        },
        None => {},
    }
    if utf8_len(secret) >= MIN_LEN_FOR_PREFIXES {
        assert forall|k: int| 0 < k && w < k <= secret.len() implies piece_absent(
            out,
            #[trigger] secret.subrange(0, k),
            MIN_PREFIX_LEN,
        ) by {
            let prefix = secret.subrange(0, k);
            if utf8_len(prefix) >= MIN_PREFIX_LEN {
                lemma_prefix_searched(secret, k);
                lemma_step_keeps_absent(text, needle, prefix);
            }
        }
    }
}

/// Redacting a searched text keeps `patterns_absent`, and leaves the text
/// absent.
proof fn lemma_piece_redacted(
    text: Seq<char>,
    secret: Seq<char>,
    piece: Seq<char>,
    min: usize,
    w: int,
)
    requires
        redactable(secret),
        utf8_len(piece) >= min ==> searched(secret, piece),
        patterns_absent(text, secret, w),
    ensures
        patterns_absent(redact_piece(text, piece, min), secret, w),
        piece_absent(redact_piece(text, piece, min), piece, min),
{
    if utf8_len(piece) >= min {
        lemma_step_keeps_patterns(text, secret, piece, w);
        lemma_step_keeps_absent(text, piece, piece);
    }
}

/// Going through the prefixes leaves none of the patterns behind.
proof fn lemma_prefixes_cleared(text: Seq<char>, secret: Seq<char>, w: int)
    requires
        redactable(secret),
        utf8_len(secret) >= MIN_LEN_FOR_PREFIXES,
        0 <= w <= secret.len(),
        patterns_absent(text, secret, w),
    ensures
        patterns_absent(redact_prefixes_down(text, secret, w), secret, 0),
    decreases w,
{
    if w > 0 {
        let prefix = secret.subrange(0, w);
        if utf8_len(prefix) >= MIN_PREFIX_LEN {
            lemma_prefix_searched(secret, w);
        }
        lemma_piece_redacted(text, secret, prefix, MIN_PREFIX_LEN, w);
        lemma_prefixes_cleared(redact_piece(text, prefix, MIN_PREFIX_LEN), secret, w - 1);
    }
}

/// Going through prefixes that are all absent changes nothing.
proof fn lemma_prefixes_identity(text: Seq<char>, secret: Seq<char>, w: int)
    requires
        w <= secret.len(),
        forall|k: int|
            0 < k <= w ==> piece_absent(text, #[trigger] secret.subrange(0, k), MIN_PREFIX_LEN),
    ensures
        redact_prefixes_down(text, secret, w) == text,
    decreases w,
{
    if w > 0 {
        let prefix = secret.subrange(0, w);
        if utf8_len(prefix) >= MIN_PREFIX_LEN {
            lemma_bytes_need_chars(prefix);
            lemma_replace_absent(text, prefix, part_mark());
        }
        lemma_prefixes_identity(text, secret, w - 1);
    }
}

/// The prefixes of the secret that the redaction has still to go through
/// once all is done: none of a long secret, and all of a short one, which
/// has none that is looked for.
spec fn prefixes_left(secret: Seq<char>) -> int {
    if utf8_len(secret) >= MIN_LEN_FOR_PREFIXES {
        0
    } else {
        secret.len() as int
    }
}

/// After the redaction of a redactable secret none of its patterns is left.
proof fn lemma_sanitized_clean(line: Seq<char>, secret: Seq<char>)
    requires
        redactable(secret),
    ensures
        patterns_absent(sanitized(line, secret), secret, prefixes_left(secret)),
{
    let n = secret.len() as int;
    let r1 = replace_all(line, secret, token_mark());
    assert(searched(secret, secret));
    lemma_secret_avoids_token_mark(secret);
    lemma_replace_clears(line, secret, token_mark(), secret, 0);
    let r2 = redact_parts(r1, secret);
    assert(patterns_absent(r2, secret, n)) by {
        match index_of(secret, '.') {
            Some(d) => {
                let first = secret.subrange(0, d);
                let second = secret.subrange(d + 1, n);
                let t = redact_piece(r1, first, MIN_PART_LEN);
                if utf8_len(first) >= MIN_PART_LEN {
                    assert(searched(secret, first));
                    lemma_step_keeps_absent(r1, first, secret);
                    lemma_step_keeps_absent(r1, first, first);
                }
                if utf8_len(second) >= MIN_PART_LEN {
                    assert(searched(secret, second));
                    lemma_step_keeps_absent(t, second, secret);
                    lemma_step_keeps_absent(t, second, second);
                    if utf8_len(first) >= MIN_PART_LEN {
                        lemma_step_keeps_absent(t, second, first);
                    }
                }
            },
            None => {},
        }
    }
    if utf8_len(secret) >= MIN_LEN_FOR_PREFIXES {
        lemma_prefixes_cleared(r2, secret, n);
    }
}

/// Redaction clears every searched text: the redacted line holds neither the
/// secret nor any part or prefix of it that the redaction looks for, for
/// every line and every redactable secret.
pub proof fn law_sanitize_clears_searched(line: Seq<char>, secret: Seq<char>, q: Seq<char>)
    requires
        redactable(secret),
        searched(secret, q),
    ensures
        !occurs_in(sanitized(line, secret), q),
{
    lemma_sanitized_clean(line, secret);
    if q != secret && utf8_len(secret) >= MIN_LEN_FOR_PREFIXES && utf8_len(q) >= MIN_PREFIX_LEN {
        if exists|k: int| 0 < k <= secret.len() && q == #[trigger] secret.subrange(0, k) {
            let k = choose|k: int| 0 < k <= secret.len() && q == #[trigger] secret.subrange(0, k);
            assert(piece_absent(sanitized(line, secret), secret.subrange(0, k), MIN_PREFIX_LEN));
        }
    }
}

/// Redaction is complete: the redacted line does not hold the secret, for
/// every line and every redactable secret.
pub proof fn law_sanitize_complete(line: Seq<char>, secret: Seq<char>)
    requires
        redactable(secret),
    ensures
        !occurs_in(sanitized(line, secret), secret),
{
    law_sanitize_clears_searched(line, secret, secret);
}

/// Redaction is idempotent: redacting a redacted line once more changes
/// nothing, for every line and every redactable secret.
pub proof fn law_sanitize_idempotent(line: Seq<char>, secret: Seq<char>)
    requires
        redactable(secret),
    ensures
        sanitized(sanitized(line, secret), secret) == sanitized(line, secret),
{
    let out = sanitized(line, secret);
    let n = secret.len() as int;
    lemma_sanitized_clean(line, secret);
    assert(searched(secret, secret));
    lemma_replace_absent(out, secret, token_mark());
    match index_of(secret, '.') {
        Some(d) => {
            let first = secret.subrange(0, d);
            let second = secret.subrange(d + 1, n);
            if utf8_len(first) >= MIN_PART_LEN {
                lemma_bytes_need_chars(first);
                lemma_replace_absent(out, first, part_mark());
            }
            if utf8_len(second) >= MIN_PART_LEN {
                lemma_bytes_need_chars(second);
                lemma_replace_absent(out, second, part_mark());
            }
        },
        None => {},
    }
    assert(redact_parts(out, secret) == out);
    if utf8_len(secret) >= MIN_LEN_FOR_PREFIXES {
        lemma_prefixes_identity(out, secret, n);
    }
}

/// Redacts the token from a log line before the line is shown.
pub fn sanitize_log(message: &str, user_token: &str) -> (result: String)
    ensures
        result@ == sanitized(message@, user_token@),
{
    let token = chars_of(user_token);
    let whole = chars_of("***TOKEN***");
    let piece = chars_of("***");
    let line = chars_of(message);
    let mut text = replace_chars(&line, &token, &whole);
    match position_of(&token, '.') {
        Some(d) => {
            let first = slice_of(&token, 0, d);
            let second = slice_of(&token, d + 1, token.len());
            if byte_len_of(&first) >= MIN_PART_LEN {
                text = replace_chars(&text, &first, &piece);
            }
            if byte_len_of(&second) >= MIN_PART_LEN {
                text = replace_chars(&text, &second, &piece);
            }
        },
        None => {},
    }
    if byte_len(user_token) >= MIN_LEN_FOR_PREFIXES {
        let ghost parts_done = text@;
        let mut w: usize = token.len();
        while w > 0
            invariant
                w <= token.len(),
                piece@ == part_mark(),
                redact_prefixes_down(text@, token@, w as int) == redact_prefixes_down(
                    parts_done,
                    token@,
                    token@.len() as int,
                ),
            decreases w,
        {
            let prefix = slice_of(&token, 0, w);
            if byte_len_of(&prefix) >= MIN_PREFIX_LEN {
                text = replace_chars(&text, &prefix, &piece);
            }
            w -= 1;
        }
    }
    string_of(&text)
}

} // verus!
