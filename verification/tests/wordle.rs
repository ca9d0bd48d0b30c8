use exercises::wordle::build_game_state;
use exercises::wordle::format_exact;
use exercises::wordle::format_not_in_word;
use exercises::wordle::format_wrong_position;
use exercises::wordle::validate_wordlist;
use exercises::wordle::GuessOutcome;
use exercises::wordle::Hint;
use exercises::wordle::MAX_GUESSES;

#[test]
fn test_validate_wordlist_check_non_empty() {
    match validate_wordlist(&[]) {
        Ok(_) => assert!(false),
        Err(err) => assert_eq!("Wordlist cannot be empty", err),
    }
}

#[test]
fn test_validate_wordlist_words_all_same_len() {
    match validate_wordlist(&vec![String::from("x"), String::from("xxx")]) {
        Ok(_) => assert!(false),
        Err(err) => assert_eq!("All words must be of same size", err),
    }
}

#[test]
fn test_validate_wordlist_only_allow_lowercase() {
    match validate_wordlist(&vec![String::from("X")]) {
        Ok(_) => assert!(false),
        Err(err) => assert_eq!("Words must be in lowercase and in between 'a' and 'z'", err),
    }
}

#[test]
fn test_validate_wordlist_only_allow_a_to_z() {
    match validate_wordlist(&vec![String::from("1")]) {
        Ok(_) => assert!(false),
        Err(err) => assert_eq!("Words must be in lowercase and in between 'a' and 'z'", err),
    }
}

#[test]
fn test_validate_wordlist_accepts_uniform_lowercase() {
    assert!(validate_wordlist(&vec![String::from("abc"), String::from("xyz")]).is_ok());
}

#[test]
fn test_build_game_state() {
    let state = build_game_state(&vec![String::from("hello"), String::from("world")]).unwrap();

    assert_eq!(state.words.len(), 2);
    assert_eq!(state.words[0], "hello");
    assert_eq!(state.words[1], "world");

    assert!(state.words.contains(&state.secret));

    assert_eq!(state.guesses, 0);
}

#[test]
fn test_guess_correct_word_is_a_win() {
    let mut state = build_game_state(&vec![String::from("word")]).unwrap();

    match state.make_guess(&"word".to_string()) {
        GuessOutcome::Win => (),
        _ => assert!(false),
    };

    assert!(state.won);
}

#[test]
fn test_guess_incorrect_word_is_incorrect_word() {
    let mut state = build_game_state(&vec![String::from("word")]).unwrap();

    match state.make_guess(&"not_in_wordlist".to_string()) {
        GuessOutcome::InvalidWord => (),
        _ => assert!(false),
    };
}

#[test]
fn test_guesses_incremented_when_hint_is_returned() {
    let mut state = build_game_state(&vec![String::from("a"), String::from("b")]).unwrap();
    state.secret = "a".to_string();

    match state.make_guess(&"b".to_string()) {
        GuessOutcome::Hint(_) => (),
        _ => assert!(false),
    };

    assert_eq!(state.guesses, 1);
}

#[test]
fn test_hint_returned_if_word_is_in_wordlist() {
    let mut state = build_game_state(&vec![String::from("a"), String::from("b")]).unwrap();

    state.secret = "a".to_string();

    match state.make_guess(&"b".to_string()) {
        GuessOutcome::Hint(x) => match x[..] {
            [Hint::NotInWord] => (),
            _ => assert!(false),
        },
        _ => assert!(false),
    };
}

#[test]
fn test_hint_exact_when_same_char_is_in_exact_position() {
    let mut state = build_game_state(&vec![String::from("abc"), String::from("xxc")]).unwrap();

    state.secret = "abc".to_string();

    match state.make_guess(&"xxc".to_string()) {
        GuessOutcome::Hint(x) => match x[..] {
            [Hint::NotInWord, Hint::NotInWord, Hint::Exact] => (),
            _ => assert!(false),
        },
        _ => assert!(false),
    };
}

#[test]
fn test_hint_char_in_wrong_place() {
    let mut state = build_game_state(&vec![String::from("abc"), String::from("cba")]).unwrap();

    state.secret = "abc".to_string();

    match state.make_guess(&"cba".to_string()) {
        GuessOutcome::Hint(x) => match x[..] {
            [Hint::WrongPosition, Hint::Exact, Hint::WrongPosition] => (),
            _ => assert!(false),
        },
        _ => assert!(false),
    };
}

#[test]
fn test_is_out_of_guesses_after_guessing_too_much() {
    let mut state = build_game_state(&vec![String::from("a"), String::from("b")]).unwrap();
    state.secret = "a".to_string();

    for _ in 1..MAX_GUESSES {
        state.make_guess(&"b".to_string());
        assert!(!state.is_out_of_guesses());
    }

    state.make_guess(&"b".to_string());
    assert!(state.is_out_of_guesses());
}

#[test]
fn test_format_squares() {
    assert_eq!(format_exact('A'), "\x1b[48;2;83;141;78m A \x1b[0m");
    assert_eq!(format_wrong_position('B'), "\x1b[48;2;181;159;59m B \x1b[0m");
    assert_eq!(format_not_in_word('C'), "\x1b[48;2;58;58;60m C \x1b[0m");
}

#[test]
fn test_play_reports_win_text() {
    let mut state = build_game_state(&vec![String::from("ab")]).unwrap();
    let text = state.play(&"ab".to_string());
    assert_eq!(
        text,
        "\x1b[48;2;83;141;78m A \x1b[0m\x1b[48;2;83;141;78m B \x1b[0m\nyou win\n"
    );
    assert!(state.won);
}

#[test]
fn test_play_reports_unknown_word() {
    let mut state = build_game_state(&vec![String::from("ab")]).unwrap();
    let text = state.play(&"zz".to_string());
    assert_eq!(text, "\"zz\" wasn't found in list\n");
    assert_eq!(state.guesses, 0);
}

#[test]
fn test_play_reports_hints() {
    let mut state = build_game_state(&vec![String::from("ab"), String::from("ba")]).unwrap();
    state.secret = "ab".to_string();
    let text = state.play(&"ba".to_string());
    assert_eq!(
        text,
        "\x1b[48;2;181;159;59m B \x1b[0m\x1b[48;2;181;159;59m A \x1b[0m\n"
    );
    assert_eq!(state.guesses, 1);
}
