use hangman::game::{GameState, GuessOutcome, HangmanGame, SecretError, MAX_MISSES};

fn start(word: &str) -> HangmanGame {
    match HangmanGame::new_game(word) {
        Ok(game) => game,
        Err(e) => panic!("{:?} refused: {:?}", word, e),
    }
}

fn guess(game: &mut HangmanGame, input: &str) -> GuessOutcome {
    game.enter_letter(String::from(input))
}

#[test]
fn cat_is_won_letter_by_letter() {
    let mut game = start("CAT");
    assert_eq!(game.get_status(), "___");
    assert_eq!(game.status(), GameState::Running);

    assert_eq!(guess(&mut game, "C"), GuessOutcome::Hit);
    assert_eq!(game.get_status(), "C__");
    assert_eq!(game.miss_count(), 0);
    assert_eq!(game.status(), GameState::Running);

    assert_eq!(guess(&mut game, "A"), GuessOutcome::Hit);
    assert_eq!(game.get_status(), "CA_");
    assert_eq!(game.miss_count(), 0);
    assert_eq!(game.status(), GameState::Running);

    assert_eq!(guess(&mut game, "T"), GuessOutcome::Hit);
    assert_eq!(game.get_status(), "CAT");
    assert_eq!(game.miss_count(), 0);
    assert_eq!(game.status(), GameState::Won);
    assert!(game.solved_word());
}

#[test]
fn dog_is_lost_at_the_sixth_miss() {
    let mut game = start("DOG");
    let wrong = ["Q", "X", "Z", "J", "V", "K"];
    let mut expected: usize = 0;
    for input in wrong {
        assert_eq!(game.status(), GameState::Running);
        assert_eq!(guess(&mut game, input), GuessOutcome::Miss);
        expected += 1;
        assert_eq!(game.miss_count(), expected);
        assert_eq!(game.stage_index(), expected);
        assert_eq!(game.get_status(), "___");
        if expected < 6 {
            assert_eq!(game.status(), GameState::Running);
        }
    }
    assert_eq!(game.miss_count(), 6);
    assert_eq!(game.miss_count(), MAX_MISSES);
    assert_eq!(game.status(), GameState::Lost);
    assert!(!game.solved_word());
}

#[test]
fn a_duplicate_guess_changes_nothing() {
    let mut game = start("GO");
    assert_eq!(guess(&mut game, "G"), GuessOutcome::Hit);
    let before = game.clone();
    assert_eq!(guess(&mut game, "G"), GuessOutcome::Duplicate);
    assert_eq!(game, before);
    assert_eq!(game.miss_count(), 0);
    assert_eq!(game.status(), GameState::Running);
    assert_eq!(game.get_status(), "G_");
}

#[test]
fn the_last_miss_loses_whatever_was_guessed() {
    let mut game = start("AB");
    assert_eq!(guess(&mut game, "A"), GuessOutcome::Hit);
    for input in ["Q", "X", "Z", "J", "V"] {
        assert_eq!(guess(&mut game, input), GuessOutcome::Miss);
        assert_eq!(game.status(), GameState::Running);
    }
    assert_eq!(game.miss_count(), 5);
    assert_eq!(guess(&mut game, "K"), GuessOutcome::Miss);
    assert_eq!(game.miss_count(), 6);
    assert_eq!(game.status(), GameState::Lost);
    assert_eq!(game.get_status(), "A_");
    // the word cannot be completed afterwards
    assert_eq!(guess(&mut game, "B"), GuessOutcome::GameOver);
    assert_eq!(game.status(), GameState::Lost);
    assert_eq!(game.get_status(), "A_");
}

#[test]
fn invalid_tokens_are_rejected_without_a_change() {
    let mut game = start("CAT");
    assert_eq!(guess(&mut game, "C"), GuessOutcome::Hit);
    assert_eq!(guess(&mut game, "Q"), GuessOutcome::Miss);
    for input in ["", "ab", "1", " ", "\t\n", "?", "A B", "cat"] {
        let before = game.clone();
        let misses: usize = game.miss_count();
        let status = game.status();
        let shown = game.get_status();
        let board = game.letter_store();
        let outcome = guess(&mut game, input);
        assert_eq!(outcome, GuessOutcome::Invalid, "input {:?}", input);
        assert!(!outcome.accepted());
        assert_eq!(game, before);
        assert_eq!(game.miss_count(), misses);
        assert_eq!(game.status(), status);
        assert_eq!(game.get_status(), shown);
        assert_eq!(game.letter_store(), board);
    }
}

#[test]
fn guesses_are_trimmed_and_put_in_upper_case() {
    let mut game = start("cat");
    assert_eq!(game.get_status(), "___");
    assert_eq!(guess(&mut game, "c"), GuessOutcome::Hit);
    assert_eq!(game.get_status(), "C__");
    assert_eq!(guess(&mut game, "  a\n"), GuessOutcome::Hit);
    assert_eq!(game.get_status(), "CA_");
    assert_eq!(guess(&mut game, " C "), GuessOutcome::Duplicate);
    assert_eq!(guess(&mut game, "\u{a0}t\u{2003}"), GuessOutcome::Hit);
    assert_eq!(game.get_status(), "CAT");
    assert_eq!(game.status(), GameState::Won);
}

#[test]
fn a_trimmed_hit_is_a_hit() {
    let mut game = start("GO");
    assert_eq!(guess(&mut game, " o "), GuessOutcome::Hit);
    assert_eq!(game.miss_count(), 0);
    assert_eq!(game.get_status(), "_O");
}

#[test]
fn a_game_that_has_ended_takes_no_guess() {
    let mut won = start("A");
    assert_eq!(guess(&mut won, "a"), GuessOutcome::Hit);
    assert_eq!(won.status(), GameState::Won);
    let before = won.clone();
    for input in ["Q", "X", "Z", "J", "V", "K", "W", "A"] {
        assert_eq!(guess(&mut won, input), GuessOutcome::GameOver);
        assert_eq!(won, before);
    }
    assert_eq!(won.status(), GameState::Won);
    assert_eq!(won.miss_count(), 0);
    // an input that is no letter is reported as such, also after the end
    assert_eq!(guess(&mut won, "12"), GuessOutcome::Invalid);
    assert_eq!(won, before);

    let mut lost = start("A");
    for input in ["Q", "X", "Z", "J", "V", "K"] {
        assert_eq!(guess(&mut lost, input), GuessOutcome::Miss);
    }
    assert_eq!(lost.status(), GameState::Lost);
    let before = lost.clone();
    assert_eq!(guess(&mut lost, "W"), GuessOutcome::GameOver);
    assert_eq!(guess(&mut lost, "a"), GuessOutcome::GameOver);
    assert_eq!(lost, before);
    assert_eq!(lost.miss_count(), 6);
    assert_eq!(lost.get_status(), "_");
}

#[test]
fn misses_never_exceed_the_limit() {
    let mut game = start("HANGMAN");
    let mut seen_lost = false;
    for round in 0..3 {
        for code in 0u8..=255 {
            let outcome = game.enter_index(code);
            assert!(game.miss_count() <= MAX_MISSES, "round {} code {}", round, code);
            assert_eq!(game.status() == GameState::Lost, game.miss_count() == MAX_MISSES);
            assert_eq!(
                game.status() == GameState::Won,
                game.solved_word() && game.miss_count() < MAX_MISSES
            );
            if seen_lost {
                assert!(!outcome.accepted());
            }
            seen_lost = game.status() == GameState::Lost;
        }
    }
    // B, C, D, E, F and I are the first six letters that HANGMAN lacks
    assert_eq!(game.miss_count(), 6);
    assert_eq!(game.status(), GameState::Lost);
    assert_eq!(game.get_status(), "HA_G_A_");
    assert_eq!(game.letter_store(), "ABCDEFGHI    \n             ");
}

#[test]
fn repeated_letters_are_revealed_together() {
    let mut game = start("banana");
    assert_eq!(guess(&mut game, "a"), GuessOutcome::Hit);
    assert_eq!(game.get_status(), "_A_A_A");
    assert_eq!(guess(&mut game, "n"), GuessOutcome::Hit);
    assert_eq!(game.get_status(), "_ANANA");
    assert_eq!(game.status(), GameState::Running);
    assert_eq!(guess(&mut game, "b"), GuessOutcome::Hit);
    assert_eq!(game.get_status(), "BANANA");
    assert_eq!(game.status(), GameState::Won);
    assert_eq!(game.get_status().chars().count(), 6);
}

#[test]
fn the_board_shows_tried_letters_in_alphabet_order() {
    let mut game = start("ZEBRA");
    assert_eq!(game.letter_store(), "             \n             ");
    assert_eq!(guess(&mut game, "z"), GuessOutcome::Hit);
    assert_eq!(guess(&mut game, "m"), GuessOutcome::Miss);
    assert_eq!(guess(&mut game, "n"), GuessOutcome::Miss);
    assert_eq!(guess(&mut game, "a"), GuessOutcome::Hit);
    assert_eq!(game.letter_store(), "A           M\nN           Z");
    assert_eq!(game.letter_store().chars().count(), 27);
    assert_eq!(game.miss_count(), 2);
    assert_eq!(game.stage_index(), 2);
}

#[test]
fn a_word_is_taken_in_upper_case() {
    let game = start("Dog");
    assert_eq!(game, start("DOG"));
    assert_eq!(game.miss_count(), 0);
    assert_eq!(game.status(), GameState::Running);
    assert!(game.secret_has('D'));
    assert!(game.secret_has('G'));
    assert!(!game.secret_has('d'));
    assert!(!game.secret_has('A'));
}

#[test]
fn a_word_that_is_no_secret_is_refused() {
    assert_eq!(HangmanGame::new_game("").err(), Some(SecretError::Empty));
    assert_eq!(HangmanGame::with_secret(String::new()).err(), Some(SecretError::Empty));
    assert_eq!(HangmanGame::new_game("it's").err(), Some(SecretError::NotALetter));
    assert_eq!(HangmanGame::new_game("two words").err(), Some(SecretError::NotALetter));
    assert_eq!(HangmanGame::new_game("caf\u{e9}").err(), Some(SecretError::NotALetter));
    assert_eq!(HangmanGame::new_game("r2d2").err(), Some(SecretError::NotALetter));
    // taken as it is, a word in lower case holds no letter of the alphabet
    assert_eq!(
        HangmanGame::with_secret(String::from("cat")).err(),
        Some(SecretError::NotALetter)
    );
    assert!(HangmanGame::with_secret(String::from("CAT")).is_ok());
    assert!(HangmanGame::new_game("none").is_ok());
}

#[test]
fn outcomes_that_are_accepted() {
    assert!(GuessOutcome::Hit.accepted());
    assert!(GuessOutcome::Miss.accepted());
    assert!(!GuessOutcome::Invalid.accepted());
    assert!(!GuessOutcome::Duplicate.accepted());
    assert!(!GuessOutcome::GameOver.accepted());
}

#[test]
fn an_index_outside_the_alphabet_is_invalid() {
    let mut game = start("CAT");
    let before = game.clone();
    assert_eq!(game.enter_index(26), GuessOutcome::Invalid);
    assert_eq!(game.enter_index(255), GuessOutcome::Invalid);
    assert_eq!(game, before);
    assert_eq!(game.enter_index(2), GuessOutcome::Hit);
    assert_eq!(game.get_status(), "C__");
    assert_eq!(game.enter_index(25), GuessOutcome::Miss);
    assert_eq!(game.miss_count(), 1);
}

#[test]
fn a_refusal_is_reported_in_words() {
    assert_eq!(SecretError::Empty.message(), "The secret word is empty.");
    assert_eq!(
        SecretError::NotALetter.message(),
        "The secret word holds a character other than A to Z."
    );
}
