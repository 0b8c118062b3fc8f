use bughouse_chess::prod_server_helpers::{player_name_verdict, validate_player_name, ProdServerHelpers};
use bughouse_chess::server_helpers::ServerHelpers;

#[test]
fn valid_names() {
    assert_eq!(validate_player_name("Alice"), Ok(()));
    assert_eq!(validate_player_name("bob_the-2nd"), Ok(()));
    assert_eq!(validate_player_name("Željko"), Ok(()));
}

#[test]
fn name_with_forbidden_characters() {
    assert_eq!(
        validate_player_name("hello world"),
        Err("Player name must consist of letters, digits, dashes ('-') and underscores ('_').".to_owned())
    );
    assert!(validate_player_name("a.b").is_err());
}

#[test]
fn name_length_bounds() {
    assert_eq!(validate_player_name("a"), Err("Minimum name length is 2.".to_owned()));
    assert_eq!(validate_player_name(""), Err("Minimum name length is 2.".to_owned()));
    assert_eq!(validate_player_name("abcdefghijklmnop"), Ok(()));
    assert_eq!(
        validate_player_name("abcdefghijklmnopq"),
        Err("Maximum name length is 16.".to_owned())
    );
}

#[test]
fn name_length_counts_graphemes_after_normalization() {
    // "e" followed by a combining acute accent is one grapheme.
    assert_eq!(validate_player_name("e\u{301}"), Err("Minimum name length is 2.".to_owned()));
    assert_eq!(validate_player_name("e\u{301}e\u{301}"), Ok(()));
}

#[test]
fn name_length_counts_graphemes_not_characters() {
    // Devanagari "ki": a consonant and a vowel sign, two letters forming one grapheme.
    let ki = "\u{915}\u{93f}";
    assert_eq!(validate_player_name(ki), Err("Minimum name length is 2.".to_owned()));
    assert_eq!(validate_player_name(&ki.repeat(2)), Ok(()));
    assert_eq!(validate_player_name(&ki.repeat(16)), Ok(()));
    assert_eq!(validate_player_name(&ki.repeat(17)), Err("Maximum name length is 16.".to_owned()));
}

#[test]
fn profanity_rejected() {
    assert_eq!(
        validate_player_name("shit"),
        Err("Player name must not contain profanity.".to_owned())
    );
}

#[test]
fn reserved_words_rejected() {
    let message = Err("Player name must not contain words \"admin\" or \"guest\".".to_owned());
    assert_eq!(validate_player_name("admin"), message);
    assert_eq!(validate_player_name("the_Guest"), message);
}

#[test]
fn prod_helpers_validate() {
    let helpers = ProdServerHelpers;
    assert_eq!(helpers.validate_player_name("Alice"), Ok(()));
    assert!(helpers.validate_player_name("x").is_err());
}

#[test]
fn verdict_on_what_the_checks_found() {
    let flags = vec![true, true, true];
    assert_eq!(player_name_verdict("abc", &flags, 3, false, false), Ok(()));
    assert_eq!(
        player_name_verdict("a-c", &vec![true, false, true], 3, false, false),
        Ok(())
    );
    assert_eq!(
        player_name_verdict("a c", &vec![true, false, true], 3, false, false),
        Err("Player name must consist of letters, digits, dashes ('-') and underscores ('_').".to_owned())
    );
    assert_eq!(player_name_verdict("abc", &flags, 1, true, true), Err("Minimum name length is 2.".to_owned()));
    assert_eq!(player_name_verdict("abc", &flags, 17, false, false), Err("Maximum name length is 16.".to_owned()));
    assert_eq!(
        player_name_verdict("abc", &flags, 3, true, true),
        Err("Player name must not contain profanity.".to_owned())
    );
    assert_eq!(
        player_name_verdict("abc", &flags, 3, false, true),
        Err("Player name must not contain words \"admin\" or \"guest\".".to_owned())
    );
}
