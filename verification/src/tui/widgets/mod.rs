//! The parts of the interface: what they show, and the actions they give.

pub mod focusable;
pub mod span;
pub mod image_list;
pub mod project_list;
pub mod popup;
pub mod legend;
pub mod footer;

use vstd::prelude::*;
use crate::tui::actions::Action;
use crate::tui::component::Component;
use crate::tui::keys::{Event, KeyCode, KeyEvent};
use crate::tui::state::{AppState, Focus};
use crate::tui::widgets::footer::Footer;
use crate::tui::widgets::image_list::ImageList;
use crate::tui::widgets::popup::PopupComponent;
use crate::tui::widgets::project_list::ProjectList;

verus! {

/// The whole interface: the project list, the image list, the footer and the
/// popup.
pub struct RootWidget {
    pub project_list: ProjectList,
    pub image_list: ImageList,
    pub footer: Footer,
    pub popup: PopupComponent,
}

/// The keys that work whatever has the focus: `j` or down selects the next
/// row, `k` or up the previous one, `q` or escape closes the popup when one
/// is shown and quits otherwise.
pub open spec fn global_key_action(ke: KeyEvent, state: AppState) -> Action {
    match ke.code {
        KeyCode::Char('j') | KeyCode::Down => Action::SelectDown,
        KeyCode::Char('k') | KeyCode::Up => Action::SelectUp,
        KeyCode::Char('q') | KeyCode::Esc => if state.popup is Some {
            Action::ClosePopup
        } else {
            Action::Quit
        },
        _ => Action::Noop,
    }
}

/// The action of the part that has the focus.
pub open spec fn focused_action(r: RootWidget, event: Event, state: AppState) -> Action {
    match state.focus {
        Focus::Projects => r.project_list.event_action(event, state),
        Focus::Images => r.image_list.event_action(event, state),
        Focus::Popup(_) => r.popup.event_action(event, state),
    }
}

/// The action of an event: the focused part's, unless it gives `Noop`; then
/// the global key's for a key press.
pub open spec fn root_event_action(r: RootWidget, event: Event, state: AppState) -> Action {
    let focused = focused_action(r, event, state);
    if focused != Action::Noop {
        focused
    } else {
        match event {
            Event::Key(ke) => global_key_action(ke, state),
            Event::Other => Action::Noop,
        }
    }
}

/// The global keys: down and `j` select the next row, up and `k` the
/// previous one, so down and up never give the same action; `q` and escape
/// close the popup when one is shown and quit otherwise; every other key
/// does nothing.
pub proof fn lemma_global_keys(r: RootWidget, ke: KeyEvent, state: AppState)
    ensures
        (ke.code == KeyCode::Down || ke.code == KeyCode::Char('j'))
            ==> r.key_action(ke, state) == Action::SelectDown,
        (ke.code == KeyCode::Up || ke.code == KeyCode::Char('k'))
            ==> r.key_action(ke, state) == Action::SelectUp,
        (ke.code == KeyCode::Char('q') || ke.code == KeyCode::Esc) && state.popup is Some
            ==> r.key_action(ke, state) == Action::ClosePopup,
        (ke.code == KeyCode::Char('q') || ke.code == KeyCode::Esc) && state.popup is None
            ==> r.key_action(ke, state) == Action::Quit,
        !(ke.code == KeyCode::Down || ke.code == KeyCode::Char('j') || ke.code == KeyCode::Up
            || ke.code == KeyCode::Char('k') || ke.code == KeyCode::Char('q')
            || ke.code == KeyCode::Esc) ==> r.key_action(ke, state) == Action::Noop,
{
}

/// A press of down and a press of up, in the same state, never give the same
/// global action.
pub proof fn lemma_down_up_differ(r: RootWidget, down: KeyEvent, up: KeyEvent, state: AppState)
    requires
        down.code == KeyCode::Down,
        up.code == KeyCode::Up,
    ensures
        r.key_action(down, state) != r.key_action(up, state),
{
    lemma_global_keys(r, down, state);
    lemma_global_keys(r, up, state);
}

/// Where the focused part gives nothing for a key press, the global keys
/// decide: down selects the next row and up the previous one.
pub proof fn lemma_unhandled_navigation(r: RootWidget, ke: KeyEvent, state: AppState)
    requires
        focused_action(r, Event::Key(ke), state) == Action::Noop,
    ensures
        (ke.code == KeyCode::Down || ke.code == KeyCode::Char('j'))
            ==> r.event_action(Event::Key(ke), state) == Action::SelectDown,
        (ke.code == KeyCode::Up || ke.code == KeyCode::Char('k'))
            ==> r.event_action(Event::Key(ke), state) == Action::SelectUp,
{
    lemma_global_keys(r, ke, state);
}

impl RootWidget {
    /// The interface with its parts.
    pub fn new() -> (r: RootWidget) {
        RootWidget {
            project_list: ProjectList {},
            image_list: ImageList {},
            footer: Footer {},
            popup: PopupComponent {},
        }
    }
}

impl Component for RootWidget {
    open spec fn key_action(&self, ke: KeyEvent, state: AppState) -> Action {
        global_key_action(ke, state)
    }

    open spec fn event_action(&self, event: Event, state: AppState) -> Action {
        root_event_action(*self, event, state)
    }

    fn handle_key_events(&mut self, ke: &KeyEvent, state: &AppState) -> (a: Action) {
        match ke.code {
            KeyCode::Char('j') | KeyCode::Down => Action::SelectDown,
            KeyCode::Char('k') | KeyCode::Up => Action::SelectUp,
            KeyCode::Char('q') | KeyCode::Esc => match state.popup {
                Some(_) => Action::ClosePopup,
                None => Action::Quit,
            },
            _ => Action::Noop,
        }
    }

    fn handle_events(&mut self, event: &Event, state: &AppState) -> (a: Action) {
        let focused_act = match state.focus {
            Focus::Projects => self.project_list.handle_events(event, state),
            Focus::Images => self.image_list.handle_events(event, state),
            Focus::Popup(_) => self.popup.handle_events(event, state),
        };
        let global_act = match event {
            Event::Key(ke) => self.handle_key_events(ke, state),
            Event::Other => Action::Noop,
        };
        match focused_act {
            Action::Noop => global_act,
            _ => focused_act,
        }
    }
}

} // verus!
