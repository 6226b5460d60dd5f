use hangman::alphabet::{ALPHABET, INVALID_INPUT};
use hangman::game::HangmanGame;

#[test]
fn letters_have_their_place_in_the_alphabet() {
    assert_eq!(HangmanGame::char_to_index('A'), 0);
    assert_eq!(HangmanGame::char_to_index('C'), 2);
    assert_eq!(HangmanGame::char_to_index('Z'), 25);
    for (place, letter) in ALPHABET.iter().enumerate() {
        assert_eq!(usize::from(HangmanGame::char_to_index(*letter)), place);
        assert_eq!(HangmanGame::index_to_char(HangmanGame::char_to_index(*letter)), *letter);
    }
    assert_eq!(HangmanGame::index_to_char(0), 'A');
    assert_eq!(HangmanGame::index_to_char(25), 'Z');
}

#[test]
fn other_characters_have_no_place() {
    assert_eq!(INVALID_INPUT, 255);
    for c in ['a', 'z', '@', '[', '0', ' ', '_', '\n', '\u{e9}', '\u{4e2d}'] {
        assert_eq!(HangmanGame::char_to_index(c), INVALID_INPUT, "{:?}", c);
    }
    // characters whose code ends in the byte of a letter are no letters
    assert_eq!(HangmanGame::char_to_index('\u{141}'), INVALID_INPUT);
    assert_eq!(HangmanGame::char_to_index('\u{1f441}'), INVALID_INPUT);
}

#[test]
fn a_token_is_one_letter() {
    assert_eq!(HangmanGame::token_to_index("C"), 2);
    assert_eq!(HangmanGame::token_to_index("Z"), 25);
    assert_eq!(HangmanGame::token_to_index(""), INVALID_INPUT);
    assert_eq!(HangmanGame::token_to_index("AB"), INVALID_INPUT);
    assert_eq!(HangmanGame::token_to_index("c"), INVALID_INPUT);
    assert_eq!(HangmanGame::token_to_index("1"), INVALID_INPUT);
    assert_eq!(HangmanGame::token_to_index(" C"), INVALID_INPUT);
    assert_eq!(HangmanGame::token_to_index("\u{141}"), INVALID_INPUT);
}

#[test]
fn a_guess_is_normalized_before_it_is_read() {
    assert_eq!(HangmanGame::guess_to_index("C"), 2);
    assert_eq!(HangmanGame::guess_to_index("c"), 2);
    assert_eq!(HangmanGame::guess_to_index(" c "), 2);
    assert_eq!(HangmanGame::guess_to_index("\tz\r\n"), 25);
    assert_eq!(HangmanGame::guess_to_index(""), INVALID_INPUT);
    assert_eq!(HangmanGame::guess_to_index(" "), INVALID_INPUT);
    assert_eq!(HangmanGame::guess_to_index("ab"), INVALID_INPUT);
    assert_eq!(HangmanGame::guess_to_index("a b"), INVALID_INPUT);
    assert_eq!(HangmanGame::guess_to_index("1"), INVALID_INPUT);
    assert_eq!(HangmanGame::guess_to_index("\u{141}"), INVALID_INPUT);
    // one character may have an upper-case form of two
    assert_eq!(HangmanGame::guess_to_index("\u{df}"), INVALID_INPUT);
}

#[test]
fn the_upper_case_form_is_the_one_of_unicode() {
    // the dotless i and the long s have a letter of the alphabet as upper case
    assert_eq!(HangmanGame::guess_to_index("\u{131}"), 8);
    assert_eq!(HangmanGame::guess_to_index("\u{17f}"), 18);
    // the Kelvin sign is its own upper case
    assert_eq!(HangmanGame::guess_to_index("\u{212a}"), INVALID_INPUT);
}
