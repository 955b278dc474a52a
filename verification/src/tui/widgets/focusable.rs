//! How focus shows on the lists.

use vstd::prelude::*;

verus! {

/// A terminal color.
#[derive(Debug, Clone, Copy, PartialEq, Eq, Structural)]
pub enum Color {
    Blue,
    Green,
    Yellow,
    Red,
    White,
    LightGreen,
    LightYellow,
}

/// Colors of a piece of text; `None` keeps the terminal's.
#[derive(Debug, Clone, Copy, PartialEq, Eq, Structural)]
pub struct Style {
    pub fg: Option<Color>,
    pub bg: Option<Color>,
}

/// A bordered block and the style of its border.
#[derive(Debug, Clone, Copy, PartialEq, Eq, Structural)]
pub struct BlockStyle {
    pub border_style: Style,
}

/// A list and the style of its selected row.
#[derive(Debug, Clone, Copy, PartialEq, Eq, Structural)]
pub struct ListStyle {
    pub highlight_style: Style,
}

/// The terminal's own colors.
pub open spec fn plain_style() -> Style {
    Style { fg: None, bg: None }
}

/// The highlight of a focused list's row: a blue background.
pub fn focus_bg(is_focused: bool) -> (s: Style)
    ensures
        s == if is_focused { Style { fg: None, bg: Some(Color::Blue) } } else { plain_style() },
{
    let focused_style = Style { fg: None, bg: Some(Color::Blue) };
    if is_focused {
        focused_style
    } else {
        Style { fg: None, bg: None }
    }
}

/// The border of a focused list: green.
pub fn focus_fg(is_focused: bool) -> (s: Style)
    ensures
        s == if is_focused { Style { fg: Some(Color::Green), bg: None } } else { plain_style() },
{
    let focused_style = Style { fg: Some(Color::Green), bg: None };
    if is_focused {
        focused_style
    } else {
        Style { fg: None, bg: None }
    }
}

/// A bordered block, its border green when focused.
pub fn focus_block(is_focused: bool) -> (b: BlockStyle)
    ensures
        b.border_style == if is_focused { Style { fg: Some(Color::Green), bg: None } } else { plain_style() },
{
    BlockStyle { border_style: focus_fg(is_focused) }
}

/// A list whose selected row has a blue background when focused.
pub fn focus_list(is_focused: bool) -> (l: ListStyle)
    ensures
        l.highlight_style == if is_focused { Style { fg: None, bg: Some(Color::Blue) } } else { plain_style() },
{
    ListStyle { highlight_style: focus_bg(is_focused) }
}

/// A table whose selected row has a blue background when focused.
pub fn focus_table(is_focused: bool) -> (l: ListStyle)
    ensures
        l.highlight_style == if is_focused { Style { fg: None, bg: Some(Color::Blue) } } else { plain_style() },
{
    ListStyle { highlight_style: focus_bg(is_focused) }
}

} // verus!
