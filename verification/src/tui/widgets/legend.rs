//! The legend of a part of the interface: its actions and their keys.

use vstd::prelude::*;
use crate::text::{join, joined};
use crate::tui::actions::{Action, action_name};
use crate::tui::config::Config;
use crate::tui::config::keymaps::KeyMap;
use crate::tui::widgets::focusable::{Color, Style};
use crate::tui::widgets::span::{Span, colored, colored_span, spans_view};

verus! {

/// A list of actions to show with their keys.
pub struct Legend {
    pub actions: Vec<Action>,
}

/// The spans of one action: its name in yellow, `: ` and its key labels
/// joined by `, ` in white.
pub open spec fn legend_entry(a: Action, labels: Seq<Seq<char>>) -> Seq<(Seq<char>, Style)> {
    seq![(action_name(a), colored(Color::Yellow)), (": "@, colored(Color::White)), (joined(labels, ", "@), colored(Color::White))]
}

/// The separator between two actions: ` | ` in blue.
pub open spec fn legend_separator() -> (Seq<char>, Style) {
    (" | "@, colored(Color::Blue))
}

/// The spans of the first `n` actions, separated.
pub open spec fn legend_prefix(actions: Seq<Action>, labels: Seq<Seq<Seq<char>>>, n: nat) -> Seq<(Seq<char>, Style)>
    decreases n,
{
    if n == 0 {
        Seq::empty()
    } else if n == 1 {
        legend_entry(actions[0], labels[0])
    } else {
        legend_prefix(actions, labels, (n - 1) as nat).push(legend_separator()) + legend_entry(
            actions[n - 1],
            labels[n - 1],
        )
    }
}

/// The key bindings shown for `a`: its bindings, or none.
pub open spec fn shown_keymaps(keymaps: Map<Action, Seq<KeyMap>>, a: Action) -> Seq<KeyMap> {
    if keymaps.dom().contains(a) {
        keymaps[a]
    } else {
        Seq::empty()
    }
}

/// The label of a key binding, given how its modifier set and its key read:
/// the modifiers, `+` and the key, or the key alone.
pub fn keymap_label(modifiers: Option<String>, key: String) -> (l: String)
    ensures
        l@ == match modifiers {
            Some(m) => m@ + "+"@ + key@,
            None => key@,
        },
{
    match modifiers {
        Some(m) => crate::text::concat_text(crate::text::concat_text(m.as_str(), "+").as_str(), key.as_str()),
        None => key,
    }
}

impl Legend {
    /// The legend of `actions`.
    pub fn new(actions: Vec<Action>) -> (l: Legend)
        ensures
            l.actions@ == actions@,
    {
        Legend { actions }
    }

    /// The bindings of each action, in the order of the actions; an action
    /// without bindings has none.
    pub fn keymaps(&self, config: &Config) -> (v: Vec<Vec<KeyMap>>)
        ensures
            v@.len() == self.actions@.len(),
            forall|i: int|
                0 <= i < v@.len() ==> (#[trigger] v@[i])@ == shown_keymaps(config.keymaps@, self.actions@[i]),
    {
        let mut v: Vec<Vec<KeyMap>> = Vec::new();
        let mut i: usize = 0;
        while i < self.actions.len()
            invariant
                i <= self.actions@.len(),
                v@.len() == i,
                forall|j: int| 0 <= j < i ==> (#[trigger] v@[j])@ == shown_keymaps(config.keymaps@, self.actions@[j]),
            decreases self.actions.len() - i,
        {
            let maps = match config.action_keymaps(&self.actions[i]) {
                Ok(k) => k.clone(),
                Err(_) => Vec::new(),
            };
            v.push(maps);
            i = i + 1;
        }
        v
    }

    /// The spans of the legend, given the label of each binding of each
    /// action: per action its name, `: ` and its labels joined by `, `, the
    /// actions separated by ` | `.
    pub fn spans(&self, labels: &Vec<Vec<String>>) -> (v: Vec<Span>)
        requires
            labels@.len() == self.actions@.len(),
        ensures
            spans_view(v@) == legend_prefix(
                self.actions@,
                labels@.map_values(|l: Vec<String>| l@.map_values(|t: String| t@)),
                self.actions@.len(),
            ),
    {
        let ghost lv = labels@.map_values(|l: Vec<String>| l@.map_values(|t: String| t@));
        let mut v: Vec<Span> = Vec::new();
        let mut i: usize = 0;
        while i < self.actions.len()
            invariant
                i <= self.actions@.len(),
                labels@.len() == self.actions@.len(),
                lv == labels@.map_values(|l: Vec<String>| l@.map_values(|t: String| t@)),
                spans_view(v@) == legend_prefix(self.actions@, lv, i as nat),
            decreases self.actions.len() - i,
        {
            let ghost before = spans_view(v@);
            if i > 0 {
                v.push(colored_span(" | ".to_owned(), Color::Blue));
            }
            let ghost mid = spans_view(v@);
            v.push(colored_span(self.actions[i].name(), Color::Yellow));
            v.push(colored_span(": ".to_owned(), Color::White));
            v.push(colored_span(join(&labels[i], ", "), Color::White));
            proof {
                assert(lv[i as int] == labels@[i as int]@.map_values(|t: String| t@));
                if i > 0 {
                    assert(mid =~= before.push(legend_separator()));
                } else {
                    assert(mid =~= before);
                }
                assert(spans_view(v@) =~= mid + legend_entry(self.actions@[i as int], lv[i as int]));
            }
            i = i + 1;
        }
        v
    }
}

} // verus!
