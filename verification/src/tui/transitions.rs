//! The actions that only change the interface's own state.

use vstd::prelude::*;
use crate::tui::state::{AppState, Focus, PopupVariant, SPINNER_FRAMES};
use crate::tui::table::TableState;

verus! {

/// `s` with an error shown: the popup holds `msg`, and the focus moves to
/// it, remembering what had it.
pub open spec fn with_error_shown(s: AppState, msg: String) -> AppState {
    AppState { focus: Focus::Popup(Box::new(s.focus)), popup: Some(PopupVariant::Error(msg)), ..s }
}

/// `s` after closing the popup: the focus goes back to what had it before,
/// and the popup is gone; nothing changes when no popup has the focus.
pub open spec fn with_popup_closed(s: AppState) -> AppState {
    match s.focus {
        Focus::Popup(f) => AppState { focus: *f, popup: None, ..s },
        _ => s,
    }
}

/// The selection after moving to the next row.
pub open spec fn next_selected(t: TableState) -> TableState {
    TableState {
        selected: Some(
            match t.selected {
                Some(i) => if i == usize::MAX { i } else { (i + 1) as usize },
                None => 0usize,
            },
        ),
        ..t
    }
}

/// The selection after moving to the previous row.
pub open spec fn previous_selected(t: TableState) -> TableState {
    TableState {
        selected: Some(
            match t.selected {
                Some(i) => if i == 0 { 0usize } else { (i - 1) as usize },
                None => usize::MAX,
            },
        ),
        ..t
    }
}

/// `s` after moving the selection of the focused list down (nothing moves
/// while a popup has the focus).
pub open spec fn with_selection_down(s: AppState) -> AppState {
    match s.focus {
        Focus::Projects => AppState { project_table_state: next_selected(s.project_table_state), ..s },
        Focus::Images => AppState { image_table_state: next_selected(s.image_table_state), ..s },
        Focus::Popup(_) => s,
    }
}

/// `s` after moving the selection of the focused list up (nothing moves
/// while a popup has the focus).
pub open spec fn with_selection_up(s: AppState) -> AppState {
    match s.focus {
        Focus::Projects => AppState { project_table_state: previous_selected(s.project_table_state), ..s },
        Focus::Images => AppState { image_table_state: previous_selected(s.image_table_state), ..s },
        Focus::Popup(_) => s,
    }
}

/// The spinner frame after `frame`, wrapping after the last.
pub open spec fn next_spinner_frame(frame: usize) -> usize {
    if frame == SPINNER_FRAMES - 1 {
        0
    } else {
        (frame + 1) as usize
    }
}

impl AppState {
    /// Shows `msg` as an error popup that takes the focus.
    pub fn show_error(&mut self, msg: String)
        ensures
            *final(self) == with_error_shown(*old(self), msg),
    {
        let mut focus = Focus::Projects;
        std::mem::swap(&mut focus, &mut self.focus);
        self.focus = Focus::Popup(Box::new(focus));
        self.popup = Some(PopupVariant::Error(msg));
    }

    /// Closes the popup that has the focus, giving the focus back.
    pub fn close_popup(&mut self)
        ensures
            *final(self) == with_popup_closed(*old(self)),
    {
        let mut focus = Focus::Projects;
        std::mem::swap(&mut focus, &mut self.focus);
        match focus {
            Focus::Popup(f) => {
                self.focus = *f;
                self.popup = None;
            },
            other => {
                self.focus = other;
            },
        }
    }

    /// Gives the focus to the image list.
    pub fn focus_images(&mut self)
        ensures
            *final(self) == (AppState { focus: Focus::Images, ..*old(self) }),
    {
        self.focus = Focus::Images;
    }

    /// Gives the focus to the project list.
    pub fn focus_projects(&mut self)
        ensures
            *final(self) == (AppState { focus: Focus::Projects, ..*old(self) }),
    {
        self.focus = Focus::Projects;
    }

    /// Asks the interface to stop.
    pub fn quit(&mut self)
        ensures
            *final(self) == (AppState { exit: true, ..*old(self) }),
    {
        self.exit = true;
    }

    /// Moves the selection of the focused list down.
    pub fn select_down(&mut self)
        ensures
            *final(self) == with_selection_down(*old(self)),
    {
        match self.focus {
            Focus::Projects => self.project_table_state.select_next(),
            Focus::Images => self.image_table_state.select_next(),
            Focus::Popup(_) => {},
        }
    }

    /// Moves the selection of the focused list up.
    pub fn select_up(&mut self)
        ensures
            *final(self) == with_selection_up(*old(self)),
    {
        match self.focus {
            Focus::Projects => self.project_table_state.select_previous(),
            Focus::Images => self.image_table_state.select_previous(),
            Focus::Popup(_) => {},
        }
    }

    /// Moves the loading spinner to its next frame.
    pub fn advance_spinner(&mut self)
        requires
            old(self).spinner_frame < usize::MAX,
        ensures
            *final(self) == (AppState { spinner_frame: next_spinner_frame(old(self).spinner_frame), ..*old(self) }),
    {
        self.spinner_frame = if self.spinner_frame == SPINNER_FRAMES - 1 {
            0
        } else {
            self.spinner_frame + 1
        };
    }
}

/// Closing the popup after an error was shown gives the focus back to what
/// had it and removes the popup; all else is as before the error.
pub proof fn lemma_close_popup_undoes_error(s: AppState, msg: String)
    ensures
        with_popup_closed(with_error_shown(s, msg)) == (AppState { popup: None, ..s }),
{
}

/// Moving the selection down and then up comes back to the same row, when a
/// row below exists to move to.
pub proof fn lemma_down_then_up(s: AppState)
    requires
        s.focus is Projects ==> (s.project_table_state.selected matches Some(i) && i < usize::MAX),
        s.focus is Images ==> (s.image_table_state.selected matches Some(i) && i < usize::MAX),
    ensures
        with_selection_up(with_selection_down(s)) == s,
{
}

/// The spinner frame stays among the spinner's frames.
pub proof fn lemma_spinner_stays_in_range(frame: usize)
    requires
        frame < SPINNER_FRAMES,
    ensures
        next_spinner_frame(frame) < SPINNER_FRAMES,
{
}

} // verus!
