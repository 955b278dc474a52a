//! Styled pieces of text, and the areas the interface draws in.

use vstd::prelude::*;
use crate::tui::widgets::focusable::{Color, Style};

verus! {

/// A piece of text in one style.
pub struct Span {
    pub content: String,
    pub style: Style,
}

impl View for Span {
    type V = (Seq<char>, Style);

    open spec fn view(&self) -> (Seq<char>, Style) {
        (self.content@, self.style)
    }
}

/// The views of a row of spans.
pub open spec fn spans_view(v: Seq<Span>) -> Seq<(Seq<char>, Style)> {
    v.map_values(|s: Span| s@)
}

/// Text in the color `c`.
pub open spec fn colored(c: Color) -> Style {
    Style { fg: Some(c), bg: None }
}

/// `content` in the color `c`.
pub fn colored_span(content: String, c: Color) -> (s: Span)
    ensures
        s@ == (content@, colored(c)),
{
    Span { content, style: Style { fg: Some(c), bg: None } }
}

/// `content` in the terminal's own colors.
pub fn plain_span(content: String) -> (s: Span)
    ensures
        s@ == (content@, Style { fg: None, bg: None }),
{
    Span { content, style: Style { fg: None, bg: None } }
}

/// A rectangle of the terminal, in cells.
#[derive(Debug, Clone, Copy, PartialEq, Eq, Structural)]
pub struct Rect {
    pub x: u16,
    pub y: u16,
    pub width: u16,
    pub height: u16,
}

} // verus!
