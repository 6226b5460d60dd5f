//! What holds of every game, however it is played.

use crate::alphabet::is_letter;
use crate::board::MASK;
use crate::game::{
    lemma_initial_wf, lemma_submit_keeps_wf, valid_secret, GameModel, GameState, GuessOutcome,
    MAX_MISSES,
};
use vstd::prelude::*;

verus! {

/// The state of a game with the given secret after the guesses have been
/// submitted in turn. A guess is the letter that an input stands for, or
/// `None` for an input that stands for no letter.
pub open spec fn play(secret: Seq<char>, guesses: Seq<Option<char>>) -> GameModel
    decreases guesses.len(),
{
    if guesses.len() == 0 {
        GameModel::initial(secret)
    } else {
        play(secret, guesses.drop_last()).submit(guesses.last())
    }
}

/// Whatever the secret and whatever is guessed, the count of misses never
/// goes beyond `MAX_MISSES`.
pub proof fn law_misses_bounded(secret: Seq<char>, guesses: Seq<Option<char>>)
    ensures
        play(secret, guesses).misses <= MAX_MISSES,
    decreases guesses.len(),
{
    if guesses.len() > 0 {
        law_misses_bounded(secret, guesses.drop_last());
    }
}

/// A game played from its start is always in a state that meets the
/// invariant.
pub proof fn law_play_wf(secret: Seq<char>, guesses: Seq<Option<char>>)
    requires
        valid_secret(secret),
    ensures
        play(secret, guesses).wf(),
        play(secret, guesses).secret == secret,
    decreases guesses.len(),
{
    if guesses.len() == 0 {
        lemma_initial_wf(secret);
    } else {
        law_play_wf(secret, guesses.drop_last());
        lemma_submit_keeps_wf(play(secret, guesses.drop_last()), guesses.last());
    }
}

/// In a state that meets the invariant the game is lost exactly when the
/// count of misses has reached `MAX_MISSES`, and won exactly when every
/// letter of the secret has been guessed with the count still below it.
pub proof fn law_status_of_state(game: GameModel)
    requires
        game.wf(),
    ensures
        game.status == GameState::Lost <==> game.misses == MAX_MISSES,
        game.status == GameState::Won <==> game.solved() && game.misses < MAX_MISSES,
        game.status == GameState::Running <==> !game.solved() && game.misses < MAX_MISSES,
{
}

/// At every point of a game played from its start, the game is lost exactly
/// when the count of misses has reached `MAX_MISSES`, and won exactly when
/// every letter of the secret has been guessed with the count still below
/// it.
pub proof fn law_status_in_play(secret: Seq<char>, guesses: Seq<Option<char>>)
    requires
        valid_secret(secret),
    ensures
        play(secret, guesses).status == GameState::Lost <==> play(secret, guesses).misses
            == MAX_MISSES,
        play(secret, guesses).status == GameState::Won <==> play(secret, guesses).solved() && play(
            secret,
            guesses,
        ).misses < MAX_MISSES,
{
    law_play_wf(secret, guesses);
}

/// A letter that has been tried changes nothing when it is submitted again,
/// in whatever state the game is: not the count of misses, not the status,
/// nor anything else.
pub proof fn law_duplicate_changes_nothing(game: GameModel, letter: char)
    requires
        game.guessed.contains(letter),
    ensures
        game.submit(Some(letter)) == game,
        !game.outcome(Some(letter)).is_accepted(),
{
}

/// Submitting the same guess a second time, directly after the first, changes
/// nothing.
pub proof fn law_resubmission_changes_nothing(game: GameModel, guess: Option<char>)
    ensures
        game.submit(guess).submit(guess) == game.submit(guess),
        !game.submit(guess).outcome(guess).is_accepted(),
{
    let next = game.submit(guess);
    if game.outcome(guess).is_accepted() {
        assert(next.guessed.contains(guess->0));
    }
}

/// An input that stands for no letter is rejected and leaves the game as it
/// was.
pub proof fn law_invalid_changes_nothing(game: GameModel, guess: Option<char>)
    requires
        guess matches Some(c) ==> !is_letter(c),
    ensures
        game.outcome(guess) == GuessOutcome::Invalid,
        game.submit(guess) == game,
{
}

/// A game that has ended takes no further guess.
pub proof fn law_ended_game_is_final(game: GameModel, guess: Option<char>)
    requires
        game.status != GameState::Running,
    ensures
        game.submit(guess) == game,
        !game.outcome(guess).is_accepted(),
{
}

/// One guess moves a game forward only: the secret stays, no tried letter is
/// forgotten and at most one joins them, the count of misses grows by one at
/// most, and it grows exactly on a miss.
pub proof fn law_guess_moves_forward(game: GameModel, guess: Option<char>)
    requires
        game.wf(),
    ensures
        game.submit(guess).secret == game.secret,
        game.guessed.subset_of(game.submit(guess).guessed),
        game.outcome(guess).is_accepted() ==> game.submit(guess).guessed == game.guessed.insert(
            guess->0,
        ),
        game.outcome(guess) == GuessOutcome::Miss ==> game.submit(guess).misses == game.misses
            + 1,
        game.outcome(guess) != GuessOutcome::Miss ==> game.submit(guess).misses == game.misses,
{
}

/// The loss is looked for before the win: a miss that brings the count to
/// `MAX_MISSES` loses the game, whatever has been guessed by then.
pub proof fn law_loss_before_win(game: GameModel, letter: char)
    requires
        game.outcome(Some(letter)) == GuessOutcome::Miss,
        game.misses + 1 >= MAX_MISSES,
    ensures
        game.submit(Some(letter)).status == GameState::Lost,
{
}

/// A wrong letter reveals nothing: the word shown after a miss is the word
/// shown before it.
pub proof fn law_miss_reveals_nothing(game: GameModel, letter: char)
    requires
        game.outcome(Some(letter)) == GuessOutcome::Miss,
    ensures
        game.submit(Some(letter)).revealed() == game.revealed(),
{
    let next = game.submit(Some(letter));
    assert forall|k: int| 0 <= k < game.secret.len() implies next.revealed()[k]
        == game.revealed()[k] by {
        assert(game.secret.contains(game.secret[k]));
    }
    assert(next.revealed() =~= game.revealed());
}

/// The word shown is as long as the secret; at the place of a guessed letter
/// it shows that letter, and at every other place the mask.
pub proof fn law_revealed_word(game: GameModel)
    ensures
        game.revealed().len() == game.secret.len(),
        forall|k: int|
            0 <= k < game.secret.len() && game.guessed.contains(game.secret[k])
                ==> #[trigger] game.revealed()[k] == game.secret[k],
        forall|k: int|
            0 <= k < game.secret.len() && !game.guessed.contains(game.secret[k])
                ==> #[trigger] game.revealed()[k] == MASK,
        game.solved() ==> game.revealed() == game.secret,
{
    if game.solved() {
        assert(game.revealed() =~= game.secret);
    }
}

} // verus!
