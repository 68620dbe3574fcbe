//! The calls that leave this crate, into other crates and into parts of the
//! standard library that have no verified contract. Nothing in this file is
//! proved: each function states what the called code is taken to do.

use sha2::Digest;
use std::collections::hash_map::DefaultHasher;
use std::hash::Hash;
use vstd::prelude::*;

verus! {

/// `String::push`: appends one character to the end of the string.
#[verifier::external_body]
pub(crate) fn push_char(s: &mut String, c: char)
    ensures
        final(s)@ == old(s)@.push(c),
{
    s.push(c);
}

/// What `strip_ansi_escapes::strip_str` returns for a text.
pub uninterp spec fn ansi_stripped(text: Seq<char>) -> Seq<char>;

/// `strip_ansi_escapes::strip_str`: the text without its ANSI escape
/// sequences. The result depends on the text alone.
#[verifier::external_body]
pub(crate) fn strip_ansi(line: &str) -> (clean: String)
    ensures
        clean@ == ansi_stripped(line@),
{
    strip_ansi_escapes::strip_str(line)
}

/// The SHA-256 digest of a sequence of bytes, as `sha2::Sha256` computes it.
pub uninterp spec fn sha256_of(data: Seq<u8>) -> Seq<u8>;

/// `sha2::Sha256::digest`: the digest of `data`. The result depends on the
/// bytes alone.
#[verifier::external_body]
pub(crate) fn sha256(data: &[u8]) -> (digest: Vec<u8>)
    ensures
        digest@ == sha256_of(data@),
{
    sha2::Sha256::digest(data).to_vec()
}

/// The lower-case hexadecimal digit for a value below 16.
pub open spec fn hex_digit(n: int) -> char {
    if n == 0 {
        '0'
    } else if n == 1 {
        '1'
    } else if n == 2 {
        '2'
    } else if n == 3 {
        '3'
    } else if n == 4 {
        '4'
    } else if n == 5 {
        '5'
    } else if n == 6 {
        '6'
    } else if n == 7 {
        '7'
    } else if n == 8 {
        '8'
    } else if n == 9 {
        '9'
    } else if n == 10 {
        'a'
    } else if n == 11 {
        'b'
    } else if n == 12 {
        'c'
    } else if n == 13 {
        'd'
    } else if n == 14 {
        'e'
    } else {
        'f'
    }
}

/// Bytes written in hexadecimal: two lower-case digits for each byte, the
/// high half first.
pub open spec fn hex_of(data: Seq<u8>) -> Seq<char> {
    Seq::new(
        2 * data.len(),
        |i: int|
            hex_digit(
                if i % 2 == 0 {
                    data[i / 2] as int / 16
                } else {
                    data[i / 2] as int % 16
                },
            ),
    )
}

/// `hex::encode`: for each byte its two lower-case hexadecimal digits, the
/// high half first.
#[verifier::external_body]
pub(crate) fn hex_encode(data: &Vec<u8>) -> (text: String)
    ensures
        text@ == hex_of(data@),
{
    hex::encode(data)
}

/// What `str::to_lowercase` returns for a text.
pub uninterp spec fn lowercase_of(text: Seq<char>) -> Seq<char>;

/// `str::to_lowercase`: the lower-case equivalent of the text. The result
/// depends on the text alone.
#[verifier::external_body]
pub(crate) fn to_lowercase(text: &str) -> (lower: String)
    ensures
        lower@ == lowercase_of(text@),
{
    text.to_lowercase()
}

/// Whether `char::is_alphanumeric` holds of a character.
pub uninterp spec fn alphanumeric(c: char) -> bool;

/// `char::is_alphanumeric`: whether the character is a letter or a number,
/// by its Unicode properties.
#[verifier::external_body]
pub(crate) fn is_alphanumeric(c: char) -> (letter_or_number: bool)
    ensures
        letter_or_number == alphanumeric(c),
{
    c.is_alphanumeric()
}

/// What the `Hash` impl of `str` writes into a hasher, write by write.
pub uninterp spec fn str_hash_writes(text: Seq<char>) -> Seq<Seq<u8>>;

/// `<str as Hash>::hash`: feeds the text into the hasher. What is written
/// depends on the text alone.
#[verifier::external_body]
pub(crate) fn hash_str(text: &str, state: &mut DefaultHasher)
    ensures
        final(state)@ == old(state)@ + str_hash_writes(text@),
{
    text.hash(state)
}

/// `chrono::Local::now`, formatted as hours, minutes and seconds. Nothing is
/// claimed of the result: it is the wall clock's.
#[verifier::external_body]
pub(crate) fn clock_time() -> String {
    chrono::Local::now().format("%H:%M:%S").to_string()
}

/// `chrono::Local::now`, written by `DateTime::to_rfc3339`. Nothing is claimed
/// of the result: it is the wall clock's.
#[verifier::external_body]
pub(crate) fn clock_date_time() -> String {
    chrono::Local::now().to_rfc3339()
}

} // verus!
