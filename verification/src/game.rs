//! The game state machine: the secret word, the letters tried so far, the
//! count of wrong guesses, and how a guess moves a game on.

use crate::alphabet::{
    guess_letter, index_letter, is_letter, lemma_code_roundtrip, letter_index, INVALID_INPUT,
};
use crate::text::{to_uppercase, trimmed, uppercased};
use vstd::prelude::*;

verus! {

/// The number of wrong guesses at which a game is lost.
pub const MAX_MISSES: usize = 6;

/// Whether a game is still being played, and how it ended if not.
#[derive(Copy, Clone, Debug, PartialEq, Eq, Structural)]
pub enum GameState {
    Running,
    Lost,
    Won,
}

/// What became of one submitted guess.
#[derive(Copy, Clone, Debug, PartialEq, Eq, Structural)]
pub enum GuessOutcome {
    /// The input is not a single letter; nothing changed.
    Invalid,
    /// The game had already ended; nothing changed.
    GameOver,
    /// The letter had been tried before; nothing changed.
    Duplicate,
    /// The letter is new and occurs in the secret word.
    Hit,
    /// The letter is new and does not occur in the secret word.
    Miss,
}

/// Why a word cannot be the secret of a game.
#[derive(Copy, Clone, Debug, PartialEq, Eq, Structural)]
pub enum SecretError {
    /// The word has no characters.
    Empty,
    /// The word holds a character other than `A` to `Z`.
    NotALetter,
}

/// The mathematical state of a game.
pub struct GameModel {
    /// The word to be guessed.
    pub secret: Seq<char>,
    /// The letters tried so far.
    pub guessed: Set<char>,
    /// The number of wrong guesses so far.
    pub misses: nat,
    /// Whether the game is running, won or lost.
    pub status: GameState,
}

/// The reason for which `secret` is refused as a secret word, if there is one:
/// a secret is not empty and holds only the letters `A` to `Z`.
pub open spec fn check_secret(secret: Seq<char>) -> Option<SecretError> {
    if secret.len() == 0 {
        Some(SecretError::Empty)
    } else if exists|k: int| 0 <= k < secret.len() && !is_letter(#[trigger] secret[k]) {
        Some(SecretError::NotALetter)
    } else {
        None
    }
}

/// `secret` can be the secret word of a game.
pub open spec fn valid_secret(secret: Seq<char>) -> bool {
    &&& secret.len() > 0
    &&& forall|k: int| 0 <= k < secret.len() ==> is_letter(#[trigger] secret[k])
}

/// Every letter of `secret` is among `guessed`.
pub open spec fn all_guessed(secret: Seq<char>, guessed: Set<char>) -> bool {
    forall|k: int| 0 <= k < secret.len() ==> guessed.contains(#[trigger] secret[k])
}

/// The status that belongs to a count of misses and a set of tried letters.
/// The loss is looked for first: a game at the limit of misses is lost,
/// whatever has been guessed.
pub open spec fn status_for(secret: Seq<char>, guessed: Set<char>, misses: nat) -> GameState {
    if misses >= MAX_MISSES {
        GameState::Lost
    } else if all_guessed(secret, guessed) {
        GameState::Won
    } else {
        GameState::Running
    }
}

impl GameModel {
    /// The state in which a game with the given secret starts.
    pub open spec fn initial(secret: Seq<char>) -> GameModel {
        GameModel { secret, guessed: Set::empty(), misses: 0, status: GameState::Running }
    }

    /// The letters tried so far that do not occur in the secret.
    pub open spec fn wrong_letters(self) -> Set<char> {
        self.guessed.difference(self.secret.to_set())
    }

    /// The invariant of a game: the secret is a word of letters, only letters
    /// have been tried, each wrong letter has been counted once, the count is
    /// within the limit, and the status is the one that belongs to the rest.
    pub open spec fn wf(self) -> bool {
        &&& valid_secret(self.secret)
        &&& self.guessed.finite()
        &&& forall|c: char| self.guessed.contains(c) ==> is_letter(c)
        &&& self.misses == self.wrong_letters().len()
        &&& self.misses <= MAX_MISSES
        &&& self.status == status_for(self.secret, self.guessed, self.misses)
    }

    /// Every letter of the secret has been guessed.
    pub open spec fn solved(self) -> bool {
        all_guessed(self.secret, self.guessed)
    }

    /// What a guess meets with. `letter` is the letter that the player's input
    /// stands for, if it stands for one. An input that is no letter is looked
    /// for first, then a game that has ended, then a letter tried before.
    pub open spec fn outcome(self, letter: Option<char>) -> GuessOutcome {
        match letter {
            None => GuessOutcome::Invalid,
            Some(c) => {
                if !is_letter(c) {
                    GuessOutcome::Invalid
                } else if self.status != GameState::Running {
                    GuessOutcome::GameOver
                } else if self.guessed.contains(c) {
                    GuessOutcome::Duplicate
                } else if self.secret.contains(c) {
                    GuessOutcome::Hit
                } else {
                    GuessOutcome::Miss
                }
            },
        }
    }

    /// The state after a guess. Only a hit or a miss changes anything: the
    /// letter joins the tried ones, a miss is counted (never beyond the
    /// limit), and the status is determined anew.
    pub open spec fn submit(self, letter: Option<char>) -> GameModel {
        match self.outcome(letter) {
            GuessOutcome::Hit => {
                let guessed = self.guessed.insert(letter->0);
                GameModel {
                    secret: self.secret,
                    guessed,
                    misses: self.misses,
                    status: status_for(self.secret, guessed, self.misses),
                }
            },
            GuessOutcome::Miss => {
                let guessed = self.guessed.insert(letter->0);
                let misses = if self.misses < MAX_MISSES {
                    self.misses + 1
                } else {
                    self.misses
                };
                GameModel {
                    secret: self.secret,
                    guessed,
                    misses,
                    status: status_for(self.secret, guessed, misses),
                }
            },
            _ => self,
        }
    }
}

/// A game starts in a state that meets the invariant.
pub proof fn lemma_initial_wf(secret: Seq<char>)
    requires
        valid_secret(secret),
    ensures
        GameModel::initial(secret).wf(),
{
    let start = GameModel::initial(secret);
    assert(start.wrong_letters() =~= Set::<char>::empty());
    assert(!all_guessed(secret, start.guessed)) by {
        assert(!start.guessed.contains(secret[0]));
    }
}

/// A guess, whatever it is, leads from a state that meets the invariant to
/// another one.
pub proof fn lemma_submit_keeps_wf(game: GameModel, letter: Option<char>)
    requires
        game.wf(),
    ensures
        game.submit(letter).wf(),
{
    let next = game.submit(letter);
    match game.outcome(letter) {
        GuessOutcome::Hit => {
            assert(next.wrong_letters() =~= game.wrong_letters());
        },
        GuessOutcome::Miss => {
            assert(next.wrong_letters() =~= game.wrong_letters().insert(letter->0));
        },
        _ => {},
    }
}

impl SecretError {
    /// What the player is told when a word is refused.
    pub open spec fn text(self) -> Seq<char> {
        match self {
            SecretError::Empty => "The secret word is empty."@,
            SecretError::NotALetter => "The secret word holds a character other than A to Z."@,
        }
    }

    /// The words in which the refusal is reported.
    pub fn message(&self) -> (message: String)
        ensures
            message@ == self.text(),
    {
        match self {
            SecretError::Empty => "The secret word is empty.".to_string(),
            SecretError::NotALetter => "The secret word holds a character other than A to Z.".to_string(),
        }
    }
}

impl GuessOutcome {
    /// The guess was taken into the game: it was a hit or a miss.
    pub open spec fn is_accepted(self) -> bool {
        self is Hit || self is Miss
    }

    /// Whether the guess was taken into the game.
    pub fn accepted(&self) -> (accepted: bool)
        ensures
            accepted == self.is_accepted(),
    {
        match self {
            GuessOutcome::Hit => true,
            GuessOutcome::Miss => true,
            _ => false,
        }
    }
}

/// One game of Hangman.
#[derive(Clone, Debug, PartialEq, Eq)]
pub struct HangmanGame {
    pub(crate) state: GameState,
    pub(crate) secret: String,
    pub(crate) misses: usize,
    pub(crate) guesses: [bool; 26],
}

impl View for HangmanGame {
    type V = GameModel;

    closed spec fn view(&self) -> GameModel {
        GameModel {
            secret: self.secret@,
            guessed: Set::new(|c: char| is_letter(c) && self.guesses[letter_index(c)]),
            misses: self.misses as nat,
            status: self.state,
        }
    }
}

impl HangmanGame {
    /// The invariant of a game: that of its model.
    pub open spec fn wf(&self) -> bool {
        self@.wf()
    }

    /// What the view of a game is made of.
    pub(crate) proof fn lemma_view(&self)
        ensures
            self@.secret == self.secret@,
            self@.misses == self.misses,
            self@.status == self.state,
            forall|c: char|
                #[trigger] self@.guessed.contains(c) <==> is_letter(c) && self.guesses[letter_index(
                    c,
                )],
    {
    }

    /// Starts a game whose secret is the upper-case form of `word`. The word is
    /// refused if that form is empty or holds anything but `A` to `Z`.
    pub fn new_game(word: &str) -> (game: Result<HangmanGame, SecretError>)
        ensures
            match game {
                Ok(g) => {
                    &&& check_secret(uppercased(word@)) is None
                    &&& g.wf()
                    &&& g@ == GameModel::initial(uppercased(word@))
                },
                Err(e) => check_secret(uppercased(word@)) == Some(e),
            },
    {
        Self::with_secret(to_uppercase(word))
    }

    /// Starts a game with the given secret, taken as it is. The secret is
    /// refused if it is empty or holds anything but `A` to `Z`.
    pub fn with_secret(secret: String) -> (game: Result<HangmanGame, SecretError>)
        ensures
            match game {
                Ok(g) => {
                    &&& check_secret(secret@) is None
                    &&& g.wf()
                    &&& g@ == GameModel::initial(secret@)
                },
                Err(e) => check_secret(secret@) == Some(e),
            },
    {
        if secret.as_str().is_empty() {
            return Err(SecretError::Empty);
        }
        for c in it: secret.as_str().chars()
            invariant
                it.seq() == secret@,
                forall|k: int| 0 <= k < it.index() ==> is_letter(#[trigger] secret@[k]),
        {
            if Self::char_to_index(c) == INVALID_INPUT {
                return Err(SecretError::NotALetter);
            }
        }
        let game = HangmanGame {
            state: GameState::Running,
            secret,
            misses: 0,
            guesses: [false; 26],
        };
        proof {
            assert(game@.guessed =~= Set::<char>::empty());
            assert(game@ == GameModel::initial(secret@));
            lemma_initial_wf(secret@);
        }
        Ok(game)
    }

    /// Whether `letter` occurs in the secret word.
    pub fn secret_has(&self, letter: char) -> (found: bool)
        ensures
            found == self@.secret.contains(letter),
    {
        for c in it: self.secret.as_str().chars()
            invariant
                it.seq() == self.secret@,
                forall|k: int| 0 <= k < it.index() ==> self.secret@[k] != letter,
        {
            if c == letter {
                return true;
            }
        }
        false
    }

    /// Whether every letter of the secret word has been guessed.
    pub fn solved_word(&self) -> (solved: bool)
        requires
            valid_secret(self@.secret),
        ensures
            solved == self@.solved(),
    {
        for c in it: self.secret.as_str().chars()
            invariant
                it.seq() == self.secret@,
                valid_secret(self.secret@),
                forall|k: int|
                    0 <= k < it.index() ==> self@.guessed.contains(#[trigger] self.secret@[k]),
        {
            let index = Self::char_to_index(c);
            if !self.guesses[index as usize] {
                assert(!self@.guessed.contains(self.secret@[it.index()]));
                return false;
            }
        }
        true
    }

    /// Submits the player's input as a guess. The input is trimmed and put in
    /// upper case; if exactly one letter `A` to `Z` is left, that letter is
    /// the guess. The game moves on only for a letter not tried before, and
    /// only while it is running.
    pub fn enter_letter(&mut self, guess: String) -> (outcome: GuessOutcome)
        requires
            old(self).wf(),
        ensures
            final(self).wf(),
            outcome == old(self)@.outcome(guess_letter(guess@)),
            final(self)@ == old(self)@.submit(guess_letter(guess@)),
            !outcome.is_accepted() ==> *final(self) == *old(self),
    {
        let index = Self::guess_to_index(guess.as_str());
        proof {
            lemma_code_roundtrip(uppercased(trimmed(guess@)));
        }
        self.enter_index(index)
    }

    /// Submits the letter at `index` as a guess; an index outside the alphabet
    /// is an invalid guess. The game moves on only for a letter not tried
    /// before, and only while it is running.
    pub fn enter_index(&mut self, index: u8) -> (outcome: GuessOutcome)
        requires
            old(self).wf(),
        ensures
            final(self).wf(),
            outcome == old(self)@.outcome(index_letter(index)),
            final(self)@ == old(self)@.submit(index_letter(index)),
            !outcome.is_accepted() ==> *final(self) == *old(self),
    {
        if index >= 26 {
            return GuessOutcome::Invalid;
        }
        if self.state != GameState::Running {
            return GuessOutcome::GameOver;
        }
        if self.guesses[index as usize] {
            return GuessOutcome::Duplicate;
        }
        let letter = Self::index_to_char(index);
        let hit = self.secret_has(letter);
        if !hit && self.misses < MAX_MISSES {
            self.misses = self.misses + 1;
        }
        self.guesses[index as usize] = true;
        assert(self@.guessed =~= old(self)@.guessed.insert(letter));
        if self.misses == MAX_MISSES {
            self.state = GameState::Lost;
        } else if self.solved_word() {
            self.state = GameState::Won;
        }
        proof {
            lemma_submit_keeps_wf(old(self)@, index_letter(index));
        }
        if hit {
            GuessOutcome::Hit
        } else {
            GuessOutcome::Miss
        }
    }

    /// The number of wrong guesses so far: the number of tried letters that
    /// do not occur in the secret. It never exceeds `MAX_MISSES`.
    pub fn miss_count(&self) -> (misses: usize)
        requires
            self.wf(),
        ensures
            misses == self@.misses,
            misses == self@.wrong_letters().len(),
            misses <= MAX_MISSES,
    {
        self.misses
    }

    /// Whether the game is running, won or lost. It is lost exactly when the
    /// count of misses has reached `MAX_MISSES`, and won exactly when every
    /// letter of the secret has been guessed with the count still below it.
    pub fn status(&self) -> (status: GameState)
        requires
            self.wf(),
        ensures
            status == self@.status,
            status == GameState::Lost <==> self@.misses == MAX_MISSES,
            status == GameState::Won <==> self@.solved() && self@.misses < MAX_MISSES,
    {
        self.state
    }

    /// The illustration to show: the number of wrong guesses, which is one of
    /// the `MAX_MISSES + 1` stages from 0 to `MAX_MISSES`.
    pub fn stage_index(&self) -> (stage: usize)
        requires
            self.wf(),
        ensures
            stage == self@.misses,
            stage <= MAX_MISSES,
    {
        self.misses
    }
}

} // verus!
