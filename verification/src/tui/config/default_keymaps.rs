//! The key bindings a new configuration starts with.

use vstd::prelude::*;
use crate::tui::actions::Action;
use crate::tui::keys::{KeyCode, KeyModifiers};
use crate::tui::config::keymaps::{KeyMap, Keymaps};

verus! {

/// A binding of a key with no modifier.
pub open spec fn plain(key: KeyCode) -> KeyMap {
    KeyMap { key, modifiers: None }
}

/// Control and `c`.
pub open spec fn ctrl_c() -> KeyMap {
    KeyMap { key: KeyCode::Char('c'), modifiers: Some(KeyModifiers { bits: 2 }) }
}

/// The default bindings: `k`/Up and `j`/Down move the selection, `J` and `K`
/// move the focus to the images and projects, `P` pushes, `p` pulls, `D`
/// deletes, `f` fetches, `P` also prunes, and Control-`c` or `q` quit or close
/// a popup.
pub open spec fn default_keymaps_spec() -> Map<Action, Seq<KeyMap>> {
    map![
        Action::SelectUp => seq![plain(KeyCode::Char('k')), plain(KeyCode::Up)],
        Action::SelectDown => seq![plain(KeyCode::Char('j')), plain(KeyCode::Down)],
        Action::FocusImages => seq![plain(KeyCode::Char('J'))],
        Action::FocusProjects => seq![plain(KeyCode::Char('K'))],
        Action::PushImage => seq![plain(KeyCode::Char('P'))],
        Action::PullImage => seq![plain(KeyCode::Char('p'))],
        Action::DeleteImage => seq![plain(KeyCode::Char('D'))],
        Action::FetchImages => seq![plain(KeyCode::Char('f'))],
        Action::PruneImages => seq![plain(KeyCode::Char('P'))],
        Action::Quit => seq![ctrl_c(), plain(KeyCode::Char('q'))],
        Action::ClosePopup => seq![ctrl_c(), plain(KeyCode::Char('q'))]
    ]
}

/// The default key bindings.
pub fn default_keymaps() -> (k: Keymaps)
    ensures
        k@ == default_keymaps_spec(),
{
    let ctrl = Some(KeyModifiers::control());
    let mut keymaps = Keymaps::new();
    keymaps.insert(Action::SelectUp, vec![KeyMap::char('k', None), KeyMap::from((None, KeyCode::Up))]);
    keymaps.insert(Action::SelectDown, vec![KeyMap::char('j', None), KeyMap::from((None, KeyCode::Down))]);
    keymaps.insert(Action::FocusImages, vec![KeyMap::char('J', None)]);
    keymaps.insert(Action::FocusProjects, vec![KeyMap::char('K', None)]);
    keymaps.insert(Action::PushImage, vec![KeyMap::char('P', None)]);
    keymaps.insert(Action::PullImage, vec![KeyMap::char('p', None)]);
    keymaps.insert(Action::DeleteImage, vec![KeyMap::char('D', None)]);
    keymaps.insert(Action::FetchImages, vec![KeyMap::char('f', None)]);
    keymaps.insert(Action::PruneImages, vec![KeyMap::char('P', None)]);
    keymaps.insert(Action::Quit, vec![KeyMap::char('c', ctrl), KeyMap::char('q', None)]);
    keymaps.insert(Action::ClosePopup, vec![KeyMap::char('c', ctrl), KeyMap::char('q', None)]);
    assert(keymaps@ =~~= default_keymaps_spec());
    keymaps
}

/// Every action but `Noop` has at least one default binding.
pub proof fn lemma_default_keymaps_cover(a: Action)
    requires
        a != Action::Noop,
    ensures
        default_keymaps_spec().dom().contains(a),
        default_keymaps_spec()[a].len() > 0,
{
}

} // verus!
