//! The alphabet of the machine: the letters A to Z, numbered 0 to 25.
//!
//! Lower-case letters are accepted wherever a letter is read and stand for
//! their upper-case form; everything the machine gives out is upper case.

use vstd::prelude::*;

verus! {

/// The letter with index 0.
pub const FIRST_LETTER: char = 'A';

/// The number of letters.
pub const ALPHABET_SIZE: u8 = 26;

/// `c` is one of `A` to `Z`.
pub open spec fn is_upper(c: char) -> bool {
    'A' <= c <= 'Z'
}

/// `c` is one of `a` to `z`.
pub open spec fn is_lower(c: char) -> bool {
    'a' <= c <= 'z'
}

/// `c` is a letter of the alphabet, in either case.
pub open spec fn is_letter(c: char) -> bool {
    is_upper(c) || is_lower(c)
}

/// The upper-case form of a lower-case letter; any other symbol unchanged.
pub open spec fn upper(c: char) -> char {
    if is_lower(c) {
        (c as int - 32) as char
    } else {
        c
    }
}

/// The index of a letter, whatever its case: 0 for `A` and `a`, 25 for `Z` and `z`.
pub open spec fn letter_index(c: char) -> int {
    upper(c) as int - 'A' as int
}

/// The upper-case letter with the given index.
pub open spec fn index_letter(i: int) -> char {
    (i + 'A' as int) as char
}

/// The symbols of a text, each in its upper-case form.
pub open spec fn upper_text(text: Seq<char>) -> Seq<char> {
    Seq::new(text.len(), |i: int| upper(text[i]))
}

/// The index of `c` in the alphabet, if `c` is a letter.
pub fn index_of(c: char) -> (i: Option<u8>)
    ensures
        is_letter(c) ==> i == Some(letter_index(c) as u8) && letter_index(c) < 26,
        !is_letter(c) ==> i is None,
{
    if 'A' <= c && c <= 'Z' {
        Some(c as u8 - 'A' as u8)
    } else if 'a' <= c && c <= 'z' {
        Some(c as u8 - 'a' as u8)
    } else {
        None
    }
}

/// The upper-case letter with index `i`.
pub fn letter_at(i: u8) -> (c: char)
    requires
        i < ALPHABET_SIZE,
    ensures
        c == index_letter(i as int),
        is_upper(c),
{
    (FIRST_LETTER as u8 + i) as char
}

/// The upper-case form of `c`.
pub fn to_upper(c: char) -> (u: char)
    ensures
        u == upper(c),
{
    match index_of(c) {
        Some(i) => letter_at(i),
        None => c,
    }
}

} // verus!
