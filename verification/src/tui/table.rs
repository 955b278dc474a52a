//! Selection state of a table.

use vstd::prelude::*;

verus! {

/// Which row of a table is selected, and the first row shown.
#[derive(Debug, Clone, Copy, PartialEq, Eq, Structural)]
pub struct TableState {
    pub offset: usize,
    pub selected: Option<usize>,
}

impl TableState {
    /// Nothing selected, scrolled to the top.
    pub fn new() -> (t: TableState)
        ensures
            t.offset == 0,
            t.selected is None,
    {
        TableState { offset: 0, selected: None }
    }

    /// This state with row `index` selected.
    pub fn with_selected(self, index: usize) -> (t: TableState)
        ensures
            t.selected == Some(index),
            t.offset == self.offset,
    {
        TableState { selected: Some(index), ..self }
    }

    /// The selected row.
    pub fn selected(&self) -> (r: Option<usize>)
        ensures
            r == self.selected,
    {
        self.selected
    }

    /// Selects `index`; selecting nothing also scrolls back to the top.
    pub fn select(&mut self, index: Option<usize>)
        ensures
            final(self).selected == index,
            final(self).offset == if index is None { 0 } else { old(self).offset },
    {
        self.selected = index;
        if index.is_none() {
            self.offset = 0;
        }
    }

    /// Selects the next row, or the first when none is selected; the table
    /// brings the index back within its rows when it is drawn.
    pub fn select_next(&mut self)
        ensures
            final(self).selected == Some(
                match old(self).selected {
                    Some(i) => if i == usize::MAX { i } else { (i + 1) as usize },
                    None => 0usize,
                },
            ),
            final(self).offset == old(self).offset,
    {
        let next = match self.selected {
            Some(i) => i.saturating_add(1),
            None => 0,
        };
        self.select(Some(next));
    }

    /// Selects the previous row, or the last when none is selected; the table
    /// brings the index back within its rows when it is drawn.
    pub fn select_previous(&mut self)
        ensures
            final(self).selected == Some(
                match old(self).selected {
                    Some(i) => if i == 0 { 0usize } else { (i - 1) as usize },
                    None => usize::MAX,
                },
            ),
            final(self).offset == old(self).offset,
    {
        let previous = match self.selected {
            Some(i) => i.saturating_sub(1),
            None => usize::MAX,
        };
        self.select(Some(previous));
    }
}

} // verus!
