//! How many terminal rows a line of the message pane takes once ratatui has
//! word-wrapped it.

use vstd::prelude::*;
use ratatui::text::Line;
use ratatui::widgets::{Paragraph, Wrap};

verus! {

/// The number of rows ratatui's word wrapping (`Wrap { trim: false }`) breaks
/// one line of `text` into, in a pane `width` columns wide.
pub uninterp spec fn wrapped_rows(text: Seq<char>, width: u16) -> usize;

/// Counts the rows of `text` laid out as the one line of a `Paragraph` with
/// `Wrap { trim: false }`, through `Paragraph::line_count`.
/// Trusted: zero for a zero width (the source returns early there), and
/// otherwise the row count named `wrapped_rows`, which depends on the text
/// and the width alone.
#[verifier::external_body]
fn line_count(text: &str, width: u16) -> (r: usize)
    ensures
        width == 0 ==> r == 0,
        width > 0 ==> r == wrapped_rows(text@, width),
{
    Paragraph::new(Line::from(text)).wrap(Wrap { trim: false }).line_count(width)
}

/// The rows a line takes, given the wrapped row count: at least one, since
/// even an empty line is drawn.
pub open spec fn at_least_one_row(n: usize) -> usize {
    if n < 1 {
        1
    } else {
        n
    }
}

/// The rows a line of `text` takes in a pane `width` columns wide.
pub open spec fn rows_of(text: Seq<char>, width: u16) -> usize {
    at_least_one_row(if width == 0 { 0 } else { wrapped_rows(text, width) })
}

/// At least one row for a line whose wrapped row count is `n`.
pub fn clamp_rows(n: usize) -> (r: usize)
    ensures
        r == at_least_one_row(n),
{
    if n < 1 {
        1
    } else {
        n
    }
}

/// How many terminal rows the line `text` occupies in `width` columns.
pub fn row_count(text: &str, width: u16) -> (r: usize)
    ensures
        r == rows_of(text@, width),
{
    clamp_rows(line_count(text, width))
}

} // verus!
