//! What a game shows: the secret word with the letters not yet guessed
//! masked, and the board of the letters tried so far.

use crate::alphabet::{is_letter, lemma_letter_positions, letter_at, letter_index};
use crate::game::{valid_secret, GameModel, HangmanGame};
use crate::text::push_char;
use vstd::prelude::*;

verus! {

/// Stands for a letter of the secret that has not been guessed.
pub const MASK: char = '_';

/// Stands on the board for a letter that has not been tried.
pub const BLANK: char = ' ';

/// The number of letters in one row of the board.
pub const ROW_LEN: usize = 13;

impl GameModel {
    /// The secret word as the player sees it: a guessed letter shows, any
    /// other is masked.
    pub open spec fn revealed(self) -> Seq<char> {
        Seq::new(
            self.secret.len(),
            |k: int| if self.guessed.contains(self.secret[k]) {
                self.secret[k]
            } else {
                MASK
            },
        )
    }

    /// What the board shows for the letter at position `i` of the alphabet:
    /// the letter if it has been tried, a blank if not.
    pub open spec fn slot(self, i: int) -> char {
        if self.guessed.contains(letter_at(i)) {
            letter_at(i)
        } else {
            BLANK
        }
    }

    /// The board of tried letters: two rows of 13 slots in the order of the
    /// alphabet, with a line feed between the rows.
    pub open spec fn board(self) -> Seq<char> {
        Seq::new(
            27,
            |k: int| if k < ROW_LEN {
                self.slot(k)
            } else if k == ROW_LEN {
                '\n'
            } else {
                self.slot(k - 1)
            },
        )
    }
}

impl HangmanGame {
    /// The secret word with every letter not yet guessed replaced by `MASK`.
    pub fn get_status(&self) -> (status: String)
        requires
            valid_secret(self@.secret),
        ensures
            status@ == self@.revealed(),
            status@.len() == self@.secret.len(),
            forall|k: int|
                0 <= k < self@.secret.len() && self@.guessed.contains(self@.secret[k])
                    ==> #[trigger] status@[k] == self@.secret[k],
            forall|k: int|
                0 <= k < self@.secret.len() && !self@.guessed.contains(self@.secret[k])
                    ==> #[trigger] status@[k] == MASK,
    {
        proof {
            self.lemma_view();
        }
        let mut status = String::new();
        for c in it: self.secret.as_str().chars()
            invariant
                it.seq() == self.secret@,
                valid_secret(self.secret@),
                status@ == self@.revealed().take(it.index()),
        {
            proof {
                self.lemma_view();
            }
            let index = Self::char_to_index(c);
            if self.guesses[index as usize] {
                push_char(&mut status, c);
            } else {
                push_char(&mut status, MASK);
            }
            assert(status@ =~= self@.revealed().take(it.index() + 1));
        }
        status
    }

    /// The letters tried so far, laid out as the board: each tried letter at
    /// its place in the alphabet, a blank at the place of every other, and a
    /// line feed after the 13th place.
    pub fn letter_store(&self) -> (store: String)
        ensures
            store@ == self@.board(),
            store@.len() == 27,
    {
        let mut store = String::new();
        let mut i: u8 = 0;
        while i < 26
            invariant
                i <= 26,
                store@.len() == (if i <= ROW_LEN { i as int } else { i + 1 }),
                forall|k: int| 0 <= k < store@.len() ==> store@[k] == self@.board()[k],
            decreases 26 - i,
        {
            if i as usize == ROW_LEN {
                push_char(&mut store, '\n');
            }
            proof {
                lemma_letter_positions();
                self.lemma_view();
            }
            if self.guesses[i as usize] {
                push_char(&mut store, Self::index_to_char(i));
            } else {
                push_char(&mut store, BLANK);
            }
            i = i + 1;
        }
        assert(store@ =~= self@.board());
        store
    }
}

} // verus!
