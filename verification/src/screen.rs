//! What the presentation needs from the game after each input: the values to
//! show, the message that ends a game, and the layout of the illustration.

use crate::alphabet::guess_letter;
use crate::game::{
    check_secret, GameModel, GameState, HangmanGame, SecretError, MAX_MISSES,
};
use crate::text::{display_width, push_char, str_width, uppercased};
use crate::words::{chars_of, lines, read_line};
use vstd::prelude::*;
use vstd::string::StringExecFns;

verus! {

/// The column at which each row of the illustration starts.
pub const CENTER_OFFSET: usize = 6;

/// The number of rows that the illustration is given.
pub const CANVAS_HEIGHT: usize = 7;

/// The values that the presentation shows.
#[derive(Clone, Debug, PartialEq, Eq)]
pub struct Screen {
    /// Which illustration to show: the number of wrong guesses.
    pub stage: usize,
    /// The board of tried letters.
    pub letter_store: String,
    /// The secret word, masked where it has not been guessed.
    pub status: String,
    /// Whether the game is running, won or lost.
    pub state: GameState,
}

/// One row of the illustration and the place at which it is printed.
#[derive(Clone, Debug, PartialEq, Eq)]
pub struct CanvasRow {
    /// The column of the first character.
    pub x: usize,
    /// The row, counted from the top.
    pub y: usize,
    /// The characters of the row.
    pub text: String,
}

/// The character that stands for a digit from 0 to 9.
pub open spec fn digit(d: nat) -> char {
    ('0' as int + d) as char
}

/// A number written in decimal digits, without leading zeros.
pub open spec fn decimal(n: nat) -> Seq<char>
    decreases n,
{
    if n < 10 {
        seq![digit(n)]
    } else {
        decimal(n / 10).push(digit(n % 10))
    }
}

/// The message that belongs to the end of a game. A game that is won is
/// closed with the word that was found, a game that is lost with the number
/// of wrong guesses. A game that is still running has not ended: its message
/// says that something is amiss.
pub open spec fn end_message(result: GameState, word: Seq<char>, misses: nat) -> Seq<char> {
    match result {
        GameState::Won => "Congratulations! You won!\nThe word was "@ + word,
        GameState::Lost => "Better luck next time :(\nWrong guesses: "@ + decimal(misses),
        GameState::Running => "Something has gone terribly wrong..."@,
    }
}

impl Screen {
    /// The screen shows the given state of a game.
    pub open spec fn shows(self, game: GameModel) -> bool {
        &&& self.stage == game.misses
        &&& self.letter_store@ == game.board()
        &&& self.status@ == game.revealed()
        &&& self.state == game.status
    }

    /// The screen of a presentation to which no game is attached: the first
    /// illustration, no board, no word, and a running state.
    pub fn blank() -> (screen: Screen)
        ensures
            screen.stage == 0,
            screen.letter_store@ == Seq::<char>::empty(),
            screen.status@ == Seq::<char>::empty(),
            screen.state == GameState::Running,
    {
        Screen {
            stage: 0,
            letter_store: String::new(),
            status: String::new(),
            state: GameState::Running,
        }
    }

    /// The screen that shows `game` as it is.
    pub fn of(game: &HangmanGame) -> (screen: Screen)
        requires
            game.wf(),
        ensures
            screen.shows(game@),
            screen.stage <= MAX_MISSES,
    {
        Screen {
            stage: game.stage_index(),
            letter_store: game.letter_store(),
            status: game.get_status(),
            state: game.status(),
        }
    }

    /// Whether the game shown has ended.
    pub fn is_over(&self) -> (over: bool)
        ensures
            over == (self.state != GameState::Running),
    {
        self.state != GameState::Running
    }
}

/// Appends `n` in decimal digits to `text`.
pub fn push_decimal(text: &mut String, n: usize)
    ensures
        final(text)@ == old(text)@ + decimal(n as nat),
    decreases n,
{
    if n >= 10 {
        push_decimal(text, n / 10);
    }
    let d: u8 = (n % 10) as u8;
    push_char(text, (48u8 + d) as char);
    assert(text@ =~= old(text)@ + decimal(n as nat));
}

/// The message with which a game is closed that ended in `result` with the
/// word shown as `word` and `misses` wrong guesses: the word on a win, the
/// count on a loss.
pub fn game_over(result: GameState, word: &str, misses: usize) -> (message: String)
    ensures
        message@ == end_message(result, word@, misses as nat),
{
    match result {
        GameState::Won => {
            let mut message = "Congratulations! You won!\nThe word was ".to_string();
            message.append(word);
            message
        },
        GameState::Lost => {
            let mut message = "Better luck next time :(\nWrong guesses: ".to_string();
            push_decimal(&mut message, misses);
            message
        },
        GameState::Running => "Something has gone terribly wrong...".to_string(),
    }
}

/// Takes one input of the player into the game and returns what is to be
/// shown afterwards. The game moves as `HangmanGame::enter_letter` says.
pub fn game_tick(game: &mut HangmanGame, guess: &str) -> (screen: Screen)
    requires
        old(game).wf(),
    ensures
        final(game).wf(),
        final(game)@ == old(game)@.submit(guess_letter(guess@)),
        screen.shows(final(game)@),
        screen.stage <= MAX_MISSES,
{
    game.enter_letter(guess.to_string());
    Screen::of(game)
}

/// Starts the game that the presentation is built around, and returns it
/// with what is to be shown first. The word is refused as
/// `HangmanGame::new_game` says.
pub fn build_ui(word: &str) -> (start: Result<(HangmanGame, Screen), SecretError>)
    ensures
        match start {
            Ok((game, screen)) => {
                &&& check_secret(uppercased(word@)) is None
                &&& game.wf()
                &&& game@ == GameModel::initial(uppercased(word@))
                &&& screen.shows(game@)
                &&& screen.stage == 0
            },
            Err(e) => check_secret(uppercased(word@)) == Some(e),
        },
{
    match HangmanGame::new_game(word) {
        Ok(game) => {
            let screen = Screen::of(&game);
            Ok((game, screen))
        },
        Err(e) => Err(e),
    }
}

/// The size that an illustration of the given display width asks for: its
/// width, and `CANVAS_HEIGHT` rows.
pub fn canvas_size_for(width: usize) -> (size: (usize, usize))
    ensures
        size == (width, CANVAS_HEIGHT),
{
    (width, CANVAS_HEIGHT)
}

/// The size that the illustration `art` asks for: the display width of its
/// text, and `CANVAS_HEIGHT` rows.
pub fn canvas_size(art: &str) -> (size: (usize, usize))
    ensures
        size.0 == display_width(art@),
        size.1 == CANVAS_HEIGHT,
{
    canvas_size_for(str_width(art))
}

/// The rows in which the illustration `art` is printed: its lines from the
/// top down, each starting at the column `CENTER_OFFSET`.
pub fn canvas_rows(art: &str) -> (rows: Vec<CanvasRow>)
    ensures
        rows@.len() == lines(art@).len(),
        forall|i: int|
            0 <= i < rows@.len() ==> {
                &&& (#[trigger] rows@[i]).x == CENTER_OFFSET
                &&& rows@[i].y == i
                &&& rows@[i].text@ == lines(art@)[i]
            },
{
    let text = chars_of(art);
    let mut rows: Vec<CanvasRow> = Vec::new();
    let mut start: usize = 0;
    proof {
        assert(text@.skip(0) =~= text@);
    }
    while start < text.len()
        invariant
            start <= text.len(),
            text@ == art@,
            rows@.len() <= start,
            lines(art@) == Seq::new(rows@.len(), |i: int| rows@[i].text@) + lines(
                text@.skip(start as int),
            ),
            forall|i: int|
                0 <= i < rows@.len() ==> (#[trigger] rows@[i]).x == CENTER_OFFSET && rows@[i].y
                    == i,
        decreases text.len() - start,
    {
        let ghost before = Seq::new(rows@.len(), |i: int| rows@[i].text@);
        let (line, next) = read_line(&text, start);
        let ghost shown = line@;
        let y = rows.len();
        rows.push(CanvasRow { x: CENTER_OFFSET, y, text: line });
        proof {
            let after = Seq::new(rows@.len(), |i: int| rows@[i].text@);
            assert(after =~= before + seq![shown]);
            assert(before + (seq![shown] + lines(text@.skip(next as int))) =~= after + lines(
                text@.skip(next as int),
            ));
        }
        start = next;
    }
    proof {
        assert(text@.skip(start as int) =~= Seq::empty());
        let shown = Seq::new(rows@.len(), |i: int| rows@[i].text@);
        assert(lines(art@) =~= shown);
        assert forall|i: int| 0 <= i < rows@.len() implies rows@[i].text@ == lines(art@)[i] by {
            assert(shown[i] == rows@[i].text@);
        }
    }
    rows
}

} // verus!
