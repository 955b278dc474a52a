//! The popup that shows a message over the interface.

use vstd::prelude::*;
use crate::tui::actions::Action;
use crate::tui::component::Component;
use crate::tui::config::matched_action;
use crate::tui::keys::{Event, KeyEvent};
use crate::tui::state::{AppState, PopupVariant};
use crate::tui::widgets::focusable::{Color, Style, plain_style};
use crate::tui::widgets::span::{Rect, colored};

verus! {

/// A popup: its title, its text, and the style of its text.
pub struct Popup {
    pub title: String,
    pub content: String,
    pub style: Style,
}

/// The title, text and style a message is shown with: an information in the
/// terminal's colors, an error in red.
pub open spec fn popup_view(v: PopupVariant) -> (Seq<char>, Seq<char>, Style) {
    match v {
        PopupVariant::Info(s) => ("Info"@, s@, plain_style()),
        PopupVariant::Error(s) => ("Error"@, s@, colored(Color::Red)),
    }
}

impl Popup {
    /// The popup that shows message `v`.
    pub fn for_variant(v: &PopupVariant) -> (p: Popup)
        ensures
            (p.title@, p.content@, p.style) == popup_view(*v),
    {
        match v {
            PopupVariant::Info(s) => Popup {
                title: "Info".to_owned(),
                content: s.clone(),
                style: Style { fg: None, bg: None },
            },
            PopupVariant::Error(s) => Popup {
                title: "Error".to_owned(),
                content: s.clone(),
                style: Style { fg: Some(Color::Red), bg: None },
            },
        }
    }
}

/// Where the popup is drawn in `area`: half its width and a third of its
/// height, a quarter of the width from the left and a third of the height
/// from the top; so it lies within the area's width and height.
pub fn popup_area(area: Rect) -> (r: Rect)
    ensures
        r == (Rect { x: area.width / 4, y: area.height / 3, width: area.width / 2, height: area.height / 3 }),
        r.x + r.width <= area.width,
        r.y + r.height <= area.height,
{
    Rect { x: area.width / 4, y: area.height / 3, width: area.width / 2, height: area.height / 3 }
}

/// The popup, as a part that answers keys.
pub struct PopupComponent {}

/// The actions the popup answers.
pub open spec fn popup_component_actions() -> Seq<Action> {
    seq![Action::ClosePopup]
}

impl Component for PopupComponent {
    open spec fn key_action(&self, ke: KeyEvent, state: AppState) -> Action {
        matched_action(state.config.keymaps@, ke, popup_component_actions())
    }

    open spec fn event_action(&self, event: Event, state: AppState) -> Action {
        match event {
            Event::Key(ke) => matched_action(state.config.keymaps@, ke, popup_component_actions()),
            Event::Other => Action::Noop,
        }
    }

    /// Close the popup, as the bindings say.
    fn handle_key_events(&mut self, ke: &KeyEvent, state: &AppState) -> (a: Action) {
        let actions = vec![Action::ClosePopup];
        assert(actions@ == popup_component_actions());
        state.config.match_actions(ke, actions.as_slice())
    }

    fn handle_events(&mut self, event: &Event, state: &AppState) -> (a: Action) {
        match event {
            Event::Key(ke) => self.handle_key_events(ke, state),
            Event::Other => Action::Noop,
        }
    }
}

} // verus!
