use lsp_backend::position::{calc_token_pos, current_ident, word_char, Position, Token};
use lsp_backend::text::{
    char_width, chars_of, line_bounds, newline_from, raw_line_bounds, saturating_sum, string_of,
    utf16_len_of, utf16_width, UTF16Len,
};
use std::rc::Rc;
use std::sync::Arc;

fn token(line: usize, column: usize, value: &str) -> Token {
    Token { line, column, value: value.to_string() }
}

fn at(line: u32, character: u32) -> Position {
    Position { line, character }
}

#[test]
fn utf16_len_counts_a_surrogate_pair_as_two() {
    assert_eq!("a\u{1F600}b".to_string().utf16_len(), 4);
    assert_eq!(utf16_len_of("a\u{1F600}b"), 4);
}

#[test]
fn utf16_len_of_ascii_is_the_character_count() {
    assert_eq!("hello, world".to_string().utf16_len(), 12);
    assert_eq!(utf16_len_of(""), 0);
}

#[test]
fn utf16_len_of_wide_characters_in_the_basic_plane_is_one_each() {
    assert_eq!("\u{53d8}\u{91cf}".to_string().utf16_len(), 2);
    assert_eq!(utf16_len_of("\u{e9}\u{53d8}\u{ffff}"), 3);
    assert_eq!(utf16_len_of("\u{10000}"), 2);
}

#[test]
fn utf16_len_agrees_with_the_standard_encoder() {
    let samples = ["", "abc", "a\u{1F600}b", "\u{53d8}\u{91cf}x = 1", "\u{10FFFF}\u{d7ff}\u{e000}"];
    for s in samples {
        assert_eq!(utf16_len_of(s), s.encode_utf16().count());
    }
}

#[test]
fn utf16_len_of_shared_strings() {
    let a: Arc<str> = Arc::from("a\u{1F600}b");
    let r: Rc<str> = Rc::from("\u{53d8}\u{91cf}x");
    assert_eq!(a.utf16_len(), 4);
    assert_eq!(r.utf16_len(), 3);
}

#[test]
fn char_width_is_two_outside_the_basic_plane() {
    assert_eq!(char_width('a'), 1);
    assert_eq!(char_width('\u{ffff}'), 1);
    assert_eq!(char_width('\u{10000}'), 2);
    assert_eq!(char_width('\u{1F600}'), 2);
}

#[test]
fn saturating_sum_stops_at_the_maximum() {
    assert_eq!(saturating_sum(2, 3), 5);
    assert_eq!(saturating_sum(u32::MAX, 1), u32::MAX);
    assert_eq!(saturating_sum(u32::MAX - 1, 1), u32::MAX);
    assert_eq!(saturating_sum(u32::MAX - 1, 2), u32::MAX);
}

#[test]
fn chars_of_and_string_of_round_trip() {
    let v = chars_of("a\u{1F600}b\n");
    assert_eq!(v, vec!['a', '\u{1F600}', 'b', '\n']);
    assert_eq!(string_of(&v, 0, v.len()), "a\u{1F600}b\n");
    assert_eq!(string_of(&v, 1, 3), "\u{1F600}b");
    assert_eq!(string_of(&v, 2, 2), "");
}

#[test]
fn utf16_width_of_a_slice() {
    let v = chars_of("a\u{1F600}b");
    assert_eq!(utf16_width(&v, 0, 3), 4);
    assert_eq!(utf16_width(&v, 1, 2), 2);
    assert_eq!(utf16_width(&v, 2, 2), 0);
}

#[test]
fn newline_from_finds_the_next_line_feed() {
    let v = chars_of("ab\ncd");
    assert_eq!(newline_from(&v, 0), 2);
    assert_eq!(newline_from(&v, 2), 2);
    assert_eq!(newline_from(&v, 3), 5);
    assert_eq!(newline_from(&v, 5), 5);
}

#[test]
fn line_bounds_of_each_line() {
    let v = chars_of("ab\ncd\r\n\nxyz");
    assert_eq!(line_bounds(&v, 0), (0, 2));
    assert_eq!(line_bounds(&v, 1), (3, 5));
    assert_eq!(line_bounds(&v, 2), (7, 7));
    assert_eq!(line_bounds(&v, 3), (8, 11));
    assert_eq!(line_bounds(&v, 4), (11, 11));
    assert_eq!(line_bounds(&v, 9), (11, 11));
}

#[test]
fn line_bounds_keeps_a_carriage_return_that_ends_the_text() {
    let v = chars_of("ab\r");
    assert_eq!(line_bounds(&v, 0), (0, 3));
    let w = chars_of("\r\nab");
    assert_eq!(line_bounds(&w, 0), (0, 0));
    assert_eq!(line_bounds(&w, 1), (2, 4));
}

#[test]
fn token_range_after_wide_characters() {
    let text = "\u{53d8}\u{91cf}x = 1";
    let span = calc_token_pos(text, &token(1, 3, "x"));
    assert_eq!(span.0, "\u{53d8}\u{91cf}".to_string().utf16_len() as u32);
    assert_eq!(span, (2, 3));
}

#[test]
fn token_range_after_an_emoji() {
    let text = "let a = 1\n\u{1F600}\u{1F600} name";
    assert_eq!(calc_token_pos(text, &token(2, 4, "name")), (5, 9));
    assert_eq!(calc_token_pos(text, &token(2, 1, "\u{1F600}")), (0, 2));
}

#[test]
fn token_range_on_a_missing_line_starts_at_zero() {
    assert_eq!(calc_token_pos("a\nb", &token(5, 4, "xyz")), (0, 3));
    assert_eq!(calc_token_pos("", &token(1, 1, "")), (0, 0));
}

#[test]
fn token_range_with_a_column_behind_the_line_end() {
    assert_eq!(calc_token_pos("ab\ncd", &token(1, 10, "+")), (2, 3));
    assert_eq!(calc_token_pos("ab\r\ncd", &token(1, 10, "+")), (2, 3));
}

#[test]
fn current_ident_takes_the_word_before_the_cursor() {
    assert_eq!(current_ident("let foo_bar = 1", at(0, 11)), "foo_bar");
    assert_eq!(current_ident("let foo_bar = 1", at(0, 7)), "foo");
    assert_eq!(current_ident("let foo_bar = 1", at(0, 8)), "foo_");
}

#[test]
fn current_ident_is_empty_without_a_word() {
    assert_eq!(current_ident("x + ", at(0, 4)), "");
    assert_eq!(current_ident("x + ", at(0, 0)), "");
    assert_eq!(current_ident("", at(0, 0)), "");
    assert_eq!(current_ident("", at(3, 7)), "");
}

#[test]
fn current_ident_on_a_later_line() {
    let text = "x = 1\ny = x +";
    assert_eq!(current_ident(text, at(1, 5)), "x");
    assert_eq!(current_ident(text, at(1, 1)), "y");
    assert_eq!(current_ident(text, at(0, 1)), "x");
}

#[test]
fn current_ident_clamps_to_the_line_end() {
    assert_eq!(current_ident("abc\nxyz", at(0, 50)), "abc");
    assert_eq!(current_ident("abc\r\nxyz", at(0, 50)), "");
    assert_eq!(current_ident("abc\r\nxyz", at(0, 3)), "abc");
    assert_eq!(current_ident("abc\nxyz", at(1, 50)), "xyz");
}

#[test]
fn current_ident_counts_a_carriage_return_as_a_character() {
    assert_eq!(current_ident("_\r\n", at(0, 2)), "");
    assert_eq!(current_ident("_\r\n", at(0, 1)), "_");
    assert_eq!(current_ident("a\r\nbc\r\n", at(1, 2)), "bc");
    assert_eq!(current_ident("a\r\nbc\r\n", at(1, 3)), "");
    assert_eq!(current_ident("ab\rcd\n", at(0, 5)), "cd");
}

#[test]
fn raw_line_bounds_cut_at_line_feeds_only() {
    let v = chars_of("ab\ncd\r\n\nxyz");
    assert_eq!(raw_line_bounds(&v, 0), (0, 2));
    assert_eq!(raw_line_bounds(&v, 1), (3, 6));
    assert_eq!(raw_line_bounds(&v, 2), (7, 7));
    assert_eq!(raw_line_bounds(&v, 3), (8, 11));
    assert_eq!(raw_line_bounds(&v, 4), (11, 11));
}

#[test]
fn current_ident_beyond_the_last_line_is_empty() {
    assert_eq!(current_ident("abc\nxyz", at(2, 0)), "");
    assert_eq!(current_ident("abc\nxyz", at(7, 3)), "");
}

#[test]
fn current_ident_with_wide_letters_and_digits() {
    assert_eq!(current_ident("\u{53d8}\u{91cf}x1 = 1", at(0, 4)), "\u{53d8}\u{91cf}x1");
    assert_eq!(current_ident("a \u{1F600}b9", at(0, 5)), "b9");
    assert_eq!(current_ident("a \u{1F600}", at(0, 3)), "");
}

#[test]
fn word_char_follows_the_alphanumeric_test() {
    assert!(word_char('a'));
    assert!(word_char('Z'));
    assert!(word_char('7'));
    assert!(word_char('_'));
    assert!(word_char('\u{53d8}'));
    assert!(!word_char(' '));
    assert!(!word_char('+'));
    assert!(!word_char('\n'));
    assert!(!word_char('\u{1F600}'));
    for c in ['a', '-', '\u{e9}', '\u{660}', '.', '\u{2160}'] {
        assert_eq!(word_char(c), c.is_alphanumeric());
    }
}
