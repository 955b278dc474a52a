//! The list of projects.

use vstd::prelude::*;
use crate::project::Project;
use crate::text::{concat_text, decimal, decimal_text};
use crate::tui::actions::Action;
use crate::tui::component::Component;
use crate::tui::config::matched_action;
use crate::tui::keys::{Event, KeyEvent};
use crate::tui::state::AppState;
use crate::tui::widgets::focusable::{Color, Style, plain_style};
use crate::tui::widgets::span::{Span, colored, colored_span, plain_span, spans_view};

verus! {

/// The spans shown for project `p`: its name, its number of images in light
/// green, and its registry in yellow when one is configured.
pub open spec fn project_line_view(s: AppState, p: Project) -> Seq<(Seq<char>, Style)> {
    let regs = s.config.project_registries@;
    let head = seq![
        (p.name@, plain_style()),
        (decimal_text(p.images@.len()) + " images "@, colored(Color::LightGreen)),
    ];
    if regs.dom().contains(p.name@) {
        head.push((regs[p.name@]@, colored(Color::Yellow)))
    } else {
        head
    }
}

/// The list of projects.
pub struct ProjectList {}

/// The actions the project list answers, in the order they are tried.
pub open spec fn project_list_actions() -> Seq<Action> {
    seq![Action::FocusImages, Action::FetchImages]
}

impl ProjectList {
    /// The line of one project.
    pub fn line(&self, state: &AppState, p: &Project) -> (v: Vec<Span>)
        ensures
            spans_view(v@) == project_line_view(*state, *p),
    {
        proof {
            reveal_strlit(" images ");
        }
        let mut v: Vec<Span> = Vec::new();
        v.push(plain_span(p.name.clone()));
        let count = concat_text(decimal(p.images.len()).as_str(), " images ");
        v.push(colored_span(count, Color::LightGreen));
        match state.config.project_registries.get(p.name.as_str()) {
            Some(reg) => {
                v.push(colored_span(reg.clone(), Color::Yellow));
            },
            None => {},
        }
        assert(spans_view(v@) =~= project_line_view(*state, *p));
        v
    }

    /// The lines of the list, one for each project, in order.
    pub fn lines(&self, state: &AppState) -> (rows: Vec<Vec<Span>>)
        ensures
            rows@.len() == state.projects@.len(),
            forall|i: int|
                0 <= i < rows@.len() ==> spans_view(#[trigger] rows@[i]@) == project_line_view(
                    *state,
                    state.projects@[i],
                ),
    {
        let mut rows: Vec<Vec<Span>> = Vec::new();
        let mut i: usize = 0;
        while i < state.projects.len()
            invariant
                i <= state.projects@.len(),
                rows@.len() == i,
                forall|j: int|
                    0 <= j < i ==> spans_view(#[trigger] rows@[j]@) == project_line_view(*state, state.projects@[j]),
            decreases state.projects.len() - i,
        {
            let line = self.line(state, &state.projects[i]);
            rows.push(line);
            i = i + 1;
        }
        rows
    }
}

impl Component for ProjectList {
    open spec fn key_action(&self, ke: KeyEvent, state: AppState) -> Action {
        matched_action(state.config.keymaps@, ke, project_list_actions())
    }

    open spec fn event_action(&self, event: Event, state: AppState) -> Action {
        match event {
            Event::Key(ke) => matched_action(state.config.keymaps@, ke, project_list_actions()),
            Event::Other => Action::Noop,
        }
    }

    /// Focus the images, or fetch the project's remote images, as the
    /// bindings say.
    fn handle_key_events(&mut self, ke: &KeyEvent, state: &AppState) -> (a: Action) {
        let actions = vec![Action::FocusImages, Action::FetchImages];
        assert(actions@ == project_list_actions());
        state.config.match_actions(ke, actions.as_slice())
    }

    fn handle_events(&mut self, event: &Event, state: &AppState) -> (a: Action) {
        match event {
            Event::Key(ke) => self.handle_key_events(ke, state),
            Event::Other => Action::Noop,
        }
    }
}

} // verus!
