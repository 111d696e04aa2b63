use charred::tapemachine::{CharTapeMachine, TapeError};

fn tape_over(text: &str) -> CharTapeMachine {
    CharTapeMachine::new(text.chars().collect())
}

#[test]
fn stepping_reads_back_the_text() {
    let text = "The quick fox";
    let mut tape = tape_over(text);
    let chars: Vec<char> = text.chars().collect();
    let mut seen = vec![chars[0]];
    while let Some(c) = tape.next_char() {
        seen.push(c);
    }
    assert_eq!(seen, chars);
    assert!(tape.check_eof());
    assert_eq!(tape.get_text(), chars);
}

#[test]
fn rewind_reads_like_a_fresh_tape() {
    let mut tape = tape_over("hello");
    tape.next_char();
    tape.next_char();
    tape.next_char();
    tape.rewind(1);

    let mut fresh = tape_over("hello");
    fresh.next_char();

    assert_eq!(tape.peek_char(), fresh.peek_char());
    assert_eq!(tape.next_char(), fresh.next_char());
    assert_eq!(tape.next_char(), fresh.next_char());
}

#[test]
fn escaped_characters_never_match() {
    let mut tape = tape_over("\\X");
    tape.next_char();
    assert!(!tape.check_char(&'X'));
    assert!(tape.check_escaped());

    let mut tape = tape_over("XX");
    assert!(tape.check_char(&'X'));
    tape.next_char();
    assert!(tape.check_char(&'X'));
}

#[test]
fn check_any_is_escape_aware() {
    let mut tape = tape_over("a\\b");
    assert!(tape.check_any(&['a', 'b']));
    tape.next_char();
    assert!(tape.check_any(&['\\']));
    tape.next_char();
    assert!(!tape.check_any(&['a', 'b']));
}

#[test]
fn check_sequence_parks_on_the_last_character() {
    let mut tape = tape_over("foobar!");
    assert!(tape.check_sequence(&['f', 'o', 'o']));
    assert!(tape.check_char(&'o'));
    assert_eq!(tape.next_char(), Some('b'));
}

#[test]
fn failed_check_sequence_restores_the_cursor() {
    let mut tape = tape_over("foobar!");
    assert!(!tape.check_sequence(&['f', 'o', 'x']));
    assert!(tape.check_char(&'f'));
    assert_eq!(tape.next_char(), Some('o'));
}

#[test]
fn check_sequence_needs_a_character_to_spare() {
    let mut tape = tape_over("ab");
    assert!(!tape.check_sequence(&['a', 'b']));
    assert!(tape.check_char(&'a'));

    let mut tape = tape_over("abc");
    assert!(tape.check_sequence(&['a', 'b']));
    assert!(tape.check_char(&'b'));
}

#[test]
fn check_any_sequence_takes_the_first_match() {
    let mut tape = tape_over("foobar!");
    let foo: &[char] = &['f', 'o', 'o'];
    let bar: &[char] = &['b', 'a', 'r'];
    assert!(tape.check_any_sequence(&[bar, foo]));
    assert!(tape.check_char(&'o'));

    let mut tape = tape_over("foobar!");
    assert!(!tape.check_any_sequence(&[bar]));
    assert!(tape.check_char(&'f'));
}

#[test]
fn seek_whitespace_stops_on_the_first_other_character() {
    let mut tape = tape_over("  \t x");
    tape.seek_whitespace();
    assert!(tape.check_char(&'x'));

    let mut tape = tape_over("y x");
    tape.seek_whitespace();
    assert!(tape.check_char(&'y'));
}

#[test]
fn seek_one_steps_or_errs_at_the_end() {
    let mut tape = tape_over("ab");
    assert!(tape.seek_one().is_ok());
    assert_eq!(tape.seek_one().unwrap_err(), TapeError::new(2));
}

#[test]
fn assert_char_errs_with_the_position() {
    let mut tape = tape_over("ab");
    assert!(tape.assert_char(&'a', None).is_ok());
    let err = tape.assert_char(&'z', None).unwrap_err();
    assert_eq!(err.index(), 0);

    tape.next_char();
    let err = tape.assert_char(&'z', Some(0)).unwrap_err();
    assert_eq!(err.index(), 0);
    assert!(tape.check_char(&'a'));
}

#[test]
fn assert_any_and_sequences_mirror_the_checks() {
    let mut tape = tape_over("foobar!");
    assert!(tape.assert_any(&['x', 'f'], None).is_ok());
    assert!(tape.assert_any(&['x', 'y'], None).is_err());
    assert!(tape.assert_sequence(&['f', 'o', 'o'], None).is_ok());
    assert!(tape.check_char(&'o'));
    let bar: &[char] = &['b', 'a', 'r'];
    let err = tape.assert_any_sequence(&[bar], Some(0)).unwrap_err();
    assert_eq!(err.index(), 0);
    assert!(tape.check_char(&'f'));
}

#[test]
fn get_string_until_any_stops_on_the_delimiter() {
    let mut tape = tape_over("abc\nrest");
    let result = tape.get_string_until_any(&['\n'], &[]).unwrap();
    assert_eq!(result, "abc");
    assert!(tape.check_char(&'\n'));
}

#[test]
fn get_string_until_any_reads_to_the_end_without_a_delimiter() {
    let mut tape = tape_over("abc");
    let result = tape.get_string_until_any(&['\n'], &[]).unwrap();
    assert_eq!(result, "abc");
    assert!(tape.check_eof());
}

#[test]
fn get_string_until_any_rewinds_on_an_error_character() {
    let mut tape = tape_over("ab!c");
    let err = tape.get_string_until_any(&['\n'], &['!']).unwrap_err();
    assert_eq!(err.index(), 2);
    assert!(tape.check_char(&'a'));
}

#[test]
fn get_string_until_any_skips_escaped_delimiters() {
    let mut tape = tape_over("a\\\nb\nc");
    let result = tape.get_string_until_any(&['\n'], &[]).unwrap();
    assert_eq!(result, "a\\\nb");
    assert!(tape.check_char(&'\n'));
}

#[test]
fn get_string_until_sequence_parks_on_the_sequence_end() {
    let mut tape = tape_over("abcSTOPxyz");
    let stop: &[char] = &['S', 'T', 'O', 'P'];
    let result = tape.get_string_until_sequence(&[stop], &[]).unwrap();
    assert_eq!(result, "abc");
    assert!(tape.check_char(&'P'));
    assert_eq!(tape.next_char(), Some('x'));
}

#[test]
fn get_string_until_sequence_rewinds_on_an_error_sequence() {
    let mut tape = tape_over("abBADxyz");
    let stop: &[char] = &['S', 'T', 'O', 'P'];
    let bad: &[char] = &['B', 'A', 'D'];
    let err = tape.get_string_until_sequence(&[stop], &[bad]).unwrap_err();
    assert_eq!(err.index(), 2);
    assert!(tape.check_char(&'a'));
}

#[test]
fn until_wins_at_the_start_but_error_wins_later() {
    let mut tape = tape_over("!a!b");
    let result = tape.get_string_until_any(&['!'], &['!']).unwrap();
    assert_eq!(result, "");
    assert!(tape.check_char(&'!'));

    let mut tape = tape_over("a!b");
    let err = tape.get_string_until_any(&['!'], &['!']).unwrap_err();
    assert_eq!(err.index(), 1);
    assert!(tape.check_char(&'a'));
}

#[test]
fn empty_text_still_constructs() {
    let mut tape = tape_over("");
    assert!(tape.check_eof());
    assert_eq!(tape.next_char(), None);
    assert_eq!(tape.peek_char(), None);
    assert_eq!(tape.get_text(), Vec::<char>::new());
}
