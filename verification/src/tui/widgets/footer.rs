//! The footer: the global actions, and what is loading.

use vstd::prelude::*;
use crate::tui::actions::global_actions;
use crate::tui::state::{AppState, SPINNER_FRAMES};
use crate::tui::widgets::focusable::{Color, Style, plain_style};
use crate::tui::widgets::legend::Legend;
use crate::tui::widgets::span::{Span, colored, colored_span, plain_span, spans_view};

verus! {

/// The symbol of each frame of the loading spinner.
pub open spec fn spinner_frame_text(frame: nat) -> Seq<char> {
    if frame == 0 {
        "\u{280b}"@
    } else if frame == 1 {
        "\u{2819}"@
    } else if frame == 2 {
        "\u{2839}"@
    } else if frame == 3 {
        "\u{2838}"@
    } else if frame == 4 {
        "\u{283c}"@
    } else if frame == 5 {
        "\u{2834}"@
    } else if frame == 6 {
        "\u{2826}"@
    } else if frame == 7 {
        "\u{2827}"@
    } else if frame == 8 {
        "\u{2807}"@
    } else {
        "\u{280f}"@
    }
}

/// The symbol of spinner frame `frame`.
pub fn spinner_symbol(frame: usize) -> (s: String)
    requires
        frame < SPINNER_FRAMES,
    ensures
        s@ == spinner_frame_text(frame as nat),
{
    let t = if frame == 0 {
        "\u{280b}"
    } else if frame == 1 {
        "\u{2819}"
    } else if frame == 2 {
        "\u{2839}"
    } else if frame == 3 {
        "\u{2838}"
    } else if frame == 4 {
        "\u{283c}"
    } else if frame == 5 {
        "\u{2834}"
    } else if frame == 6 {
        "\u{2826}"
    } else if frame == 7 {
        "\u{2827}"
    } else if frame == 8 {
        "\u{2807}"
    } else {
        "\u{280f}"
    };
    t.to_owned()
}

/// The footer.
pub struct Footer {}

/// What the footer shows of what is loading: the spinner's symbol in green,
/// a space, and the message; nothing when nothing loads.
pub open spec fn loading_view(s: AppState) -> Option<Seq<(Seq<char>, Style)>> {
    match s.loading {
        Some(msg) => Some(
            seq![
                (spinner_frame_text(s.spinner_frame as nat), colored(Color::Green)),
                (" "@, plain_style()),
                (msg@, plain_style()),
            ],
        ),
        None => None,
    }
}

impl Footer {
    /// The legend of the actions available whatever has the focus.
    pub fn legend(&self) -> (l: Legend)
        ensures
            l.actions@ == global_actions_view(),
    {
        Legend::new(global_actions())
    }

    /// The loading indicator, when something loads.
    pub fn loading_spans(&self, state: &AppState) -> (r: Option<Vec<Span>>)
        requires
            state.spinner_frame < SPINNER_FRAMES,
        ensures
            match (r, loading_view(*state)) {
                (Some(v), Some(w)) => spans_view(v@) == w,
                (None, None) => true,
                _ => false,
            },
    {
        match &state.loading {
            Some(msg) => {
                proof {
                    reveal_strlit(" ");
                }
                let mut v: Vec<Span> = Vec::new();
                v.push(colored_span(spinner_symbol(state.spinner_frame), Color::Green));
                v.push(plain_span(" ".to_owned()));
                v.push(plain_span(msg.clone()));
                assert(spans_view(v@) =~= loading_view(*state)->0);
                Some(v)
            },
            None => None,
        }
    }
}

/// The actions available whatever has the focus.
pub open spec fn global_actions_view() -> Seq<crate::tui::actions::Action> {
    seq![
        crate::tui::actions::Action::SelectUp,
        crate::tui::actions::Action::SelectDown,
        crate::tui::actions::Action::Quit,
    ]
}

} // verus!
