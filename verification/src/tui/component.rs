//! Parts of the interface that turn events into actions.

use vstd::prelude::*;
use crate::tui::actions::Action;
use crate::tui::keys::{Event, KeyEvent};
use crate::tui::state::AppState;

verus! {

/// A part of the interface that answers events with an action.
pub trait Component {
    /// The action this part gives for key press `ke` in state `state`.
    spec fn key_action(&self, ke: KeyEvent, state: AppState) -> Action;

    /// The action this part gives for `event` in state `state`.
    spec fn event_action(&self, event: Event, state: AppState) -> Action;

    /// Answers a key press.
    fn handle_key_events(&mut self, ke: &KeyEvent, state: &AppState) -> (a: Action)
        ensures
            a == old(self).key_action(*ke, *state),
    ;

    /// Answers an event.
    fn handle_events(&mut self, event: &Event, state: &AppState) -> (a: Action)
        ensures
            a == old(self).event_action(*event, *state),
    ;
}

} // verus!
