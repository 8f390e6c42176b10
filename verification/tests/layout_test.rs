//! Row counts of word-wrapped lines in the message pane.

use mercury::tui::layout::row_count;

/// Rows for a plain-text line (system messages, etc.).
fn row_count_str(text: &str, width: u16) -> usize {
    row_count(text, width)
}

// Word wrapping can need more rows than `ceil(chars / width)`, since words
// are not split mid-word.

/// "aa bbb cc" (9 chars) in a 5-col pane takes 3 rows, not ceil(9/5) = 2.
#[test]
fn word_wrap_needs_more_rows_than_char_ceil() {
    assert_eq!(row_count_str("aa bbb cc", 5), 3);
}

/// "word1 word2 word3" (17 chars) in a 10-col pane takes 3 rows.
#[test]
fn three_words_each_near_pane_width() {
    assert_eq!(row_count_str("word1 word2 word3", 10), 3);
}

#[test]
fn short_message_fits_on_one_row() {
    assert_eq!(row_count_str("hello world", 80), 1);
}

#[test]
fn system_message_short() {
    assert_eq!(row_count_str("  You joined #general", 80), 1);
}

#[test]
fn chat_message_single_span_short() {
    assert_eq!(row_count_str(" <alice> hello world", 80), 1);
}

/// Chat messages are drawn as two parts, ` <nick>` and ` text`, wrapped as
/// one line.
#[test]
fn chat_message_two_spans_wraps_correctly() {
    let line = [" <alice>", " hello world this is a test of wrapping behaviour"].concat();
    // At width 40 the combined 58-char string wraps to 2 rows.
    assert_eq!(row_count(&line, 40), 2);
    // At width 80 it fits on 1 row.
    assert_eq!(row_count(&line, 80), 1);
}

/// A space that exactly fills a row is consumed at the wrap boundary.
#[test]
fn inter_word_space_at_row_boundary_is_consumed() {
    assert_eq!(row_count_str("hello world", 5), 2);
}

#[test]
fn long_word_wider_than_pane_is_char_split() {
    // "helloworld" (10 chars) in a 4-col pane → ceil(10/4) = 3 rows.
    assert_eq!(row_count_str("helloworld", 4), 3);
}

#[test]
fn empty_text_one_row() {
    assert_eq!(row_count_str("", 80), 1);
}
