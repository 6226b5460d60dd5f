//! The 26-letter alphabet the game is played with, and the reading of a
//! player's input as one of its letters.

use crate::game::HangmanGame;
use crate::text::{to_uppercase, trim, trimmed, uppercased};
use vstd::prelude::*;

verus! {

/// The letters, in the order of their indices.
pub const ALPHABET: [char; 26] = [
    'A', 'B', 'C', 'D', 'E', 'F', 'G', 'H', 'I', 'J', 'K', 'L', 'M', 'N', 'O', 'P', 'Q', 'R', 'S',
    'T', 'U', 'V', 'W', 'X', 'Y', 'Z',
];

/// The index that stands for "not a letter".
pub const INVALID_INPUT: u8 = 255;

/// `c` is one of the upper-case Latin letters `A` to `Z`.
pub open spec fn is_letter(c: char) -> bool {
    'A' <= c && c <= 'Z'
}

/// The position of a letter in the alphabet: 0 for `A`, 25 for `Z`.
pub open spec fn letter_index(c: char) -> int {
    c as int - 'A' as int
}

/// The letter at a position of the alphabet.
pub open spec fn letter_at(i: int) -> char {
    (i + 'A' as int) as char
}

/// The letter that a normalized token stands for: the token must be exactly
/// one character, and that character a letter.
pub open spec fn token_letter(token: Seq<char>) -> Option<char> {
    if token.len() == 1 && is_letter(token[0]) {
        Some(token[0])
    } else {
        None
    }
}

/// The letter that a raw input stands for: the input is trimmed and put in
/// upper case, and what is left is read as a token.
pub open spec fn guess_letter(raw: Seq<char>) -> Option<char> {
    token_letter(uppercased(trimmed(raw)))
}

/// The letter that an index stands for; none for an index outside the
/// alphabet.
pub open spec fn index_letter(index: u8) -> Option<char> {
    if index < 26 {
        Some(letter_at(index as int))
    } else {
        None
    }
}

/// The index under which a reading is reported: the letter's position, or
/// `INVALID_INPUT` where there is no letter.
pub open spec fn letter_code(letter: Option<char>) -> u8 {
    match letter {
        Some(c) => letter_index(c) as u8,
        None => INVALID_INPUT,
    }
}

/// Positions and letters correspond one to one.
pub proof fn lemma_letter_positions()
    ensures
        forall|c: char| is_letter(c) ==> 0 <= #[trigger] letter_index(c) < 26,
        forall|c: char| is_letter(c) ==> letter_at(#[trigger] letter_index(c)) == c,
        forall|i: int| 0 <= i < 26 ==> is_letter(#[trigger] letter_at(i)),
        forall|i: int| 0 <= i < 26 ==> letter_index(#[trigger] letter_at(i)) == i,
{
}

/// A reading survives the passage through its index.
pub proof fn lemma_code_roundtrip(token: Seq<char>)
    ensures
        index_letter(letter_code(token_letter(token))) == token_letter(token),
{
}

impl HangmanGame {
    /// The letter at `index`.
    pub fn index_to_char(index: u8) -> (c: char)
        requires
            index < 26,
        ensures
            c == letter_at(index as int),
            is_letter(c),
    {
        ALPHABET[index as usize]
    }

    /// The index of `c` in the alphabet, or `INVALID_INPUT` if `c` is not one of
    /// `A` to `Z`.
    pub fn char_to_index(c: char) -> (index: u8)
        ensures
            is_letter(c) ==> index == letter_index(c),
            !is_letter(c) ==> index == INVALID_INPUT,
            index == INVALID_INPUT || index < 26,
    {
        if c >= 'A' && c <= 'Z' {
            ((c as u32) - 65) as u8
        } else {
            INVALID_INPUT
        }
    }

    /// Reads a normalized token: the index of its letter if the token is exactly
    /// one character from `A` to `Z`, and `INVALID_INPUT` otherwise.
    pub fn token_to_index(token: &str) -> (index: u8)
        ensures
            index == letter_code(token_letter(token@)),
            index == INVALID_INPUT || index < 26,
    {
        let mut chars = token.chars();
        match chars.next() {
            None => INVALID_INPUT,
            Some(c) => match chars.next() {
                Some(_) => INVALID_INPUT,
                None => Self::char_to_index(c),
            },
        }
    }

    /// Reads a raw input: surrounding whitespace is removed, the rest is put in
    /// upper case and read as a token.
    pub fn guess_to_index(guess: &str) -> (index: u8)
        ensures
            index == letter_code(guess_letter(guess@)),
            index == INVALID_INPUT || index < 26,
    {
        let token = to_uppercase(trim(guess));
        Self::token_to_index(token.as_str())
    }
}

} // verus!
