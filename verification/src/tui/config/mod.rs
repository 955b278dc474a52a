//! The interface's configuration: registries, registry commands, command
//! behaviours, key bindings and the OCI command.

pub mod default_keymaps;
pub mod keymaps;

use vstd::prelude::*;
use crate::name_map::NameMap;
use crate::search::{first_match, lemma_first_match};
use crate::tui::actions::Action;
use crate::tui::keys::{KeyCode, KeyEvent};
use crate::tui::config::keymaps::{KeyMap, Keymaps};
use crate::tui::config::default_keymaps::{default_keymaps, default_keymaps_spec};

verus! {

/// Shell commands that act on one registry.
pub struct RegistryCommands {
    /// Deletes an image; `{id}`, `{repository}`, `{project}` and `{digest}`
    /// are replaced before it runs.
    pub delete_image: String,
    /// Lists a project's images as JSON; `{project}` is replaced before it
    /// runs.
    pub list_images: String,
}

impl RegistryCommands {
    /// A copy of the commands.
    pub fn duplicate(&self) -> (r: RegistryCommands)
        ensures
            r.delete_image == self.delete_image,
            r.list_images == self.list_images,
    {
        RegistryCommands { delete_image: self.delete_image.clone(), list_images: self.list_images.clone() }
    }
}

/// How an external command runs: in the background, or in the foreground
/// with the terminal handed over to it.
#[derive(Debug, Clone, Copy, PartialEq, Eq, Structural)]
pub enum CommandBehaviour {
    Async,
    Interactive,
}

impl Default for CommandBehaviour {
    /// Commands run interactively unless configured otherwise.
    fn default() -> (b: CommandBehaviour)
        ensures
            b == CommandBehaviour::Interactive,
    {
        CommandBehaviour::Interactive
    }
}

/// The behaviour of each kind of external command.
#[derive(Debug, Clone, Copy, PartialEq, Eq, Structural)]
pub struct CommandBehaviours {
    pub push_image: CommandBehaviour,
    pub delete_image: CommandBehaviour,
    pub pull_image: CommandBehaviour,
}

impl Default for CommandBehaviours {
    /// Every command interactive.
    fn default() -> (b: CommandBehaviours)
        ensures
            b.push_image == CommandBehaviour::Interactive,
            b.delete_image == CommandBehaviour::Interactive,
            b.pull_image == CommandBehaviour::Interactive,
    {
        CommandBehaviours {
            push_image: CommandBehaviour::Interactive,
            delete_image: CommandBehaviour::Interactive,
            pull_image: CommandBehaviour::Interactive,
        }
    }
}

/// The configuration.
pub struct Config {
    /// The OCI command (`docker` by default).
    pub oci_cmd: String,
    /// The registry of each project.
    pub project_registries: NameMap<String>,
    /// The commands of each registry.
    pub registry_commands: NameMap<RegistryCommands>,
    pub command_behaviours: CommandBehaviours,
    pub keymaps: Keymaps,
}

/// Why a configuration lookup failed.
#[derive(Debug, Clone, Copy, PartialEq, Eq, Structural)]
pub enum ConfigError {
    /// The action has no key bindings.
    NoKeymaps(Action),
}

impl Default for Config {
    /// No registries, interactive commands, the default key bindings, and
    /// `docker` as the OCI command.
    fn default() -> (c: Config)
        ensures
            c.oci_cmd@ == "docker"@,
            c.project_registries@ == Map::<Seq<char>, String>::empty(),
            c.registry_commands@ == Map::<Seq<char>, RegistryCommands>::empty(),
            c.command_behaviours.push_image == CommandBehaviour::Interactive,
            c.command_behaviours.delete_image == CommandBehaviour::Interactive,
            c.command_behaviours.pull_image == CommandBehaviour::Interactive,
            c.keymaps@ == default_keymaps_spec(),
    {
        Config {
            oci_cmd: "docker".to_owned(),
            project_registries: NameMap::new(),
            registry_commands: NameMap::new(),
            command_behaviours: CommandBehaviours::default(),
            keymaps: default_keymaps(),
        }
    }
}

/// Whether key binding `km` fires on key press `ke`: same key, and every
/// modifier the binding asks for held (others may be held too).
pub open spec fn keymap_triggers(km: KeyMap, ke: KeyEvent) -> bool {
    let required: u8 = match km.modifiers {
        Some(m) => m.bits,
        None => 0u8,
    };
    &&& ke.modifiers.bits & required == required
    &&& ke.code == km.key
}

/// Whether some binding of `act` fires on `ke`.
pub open spec fn action_triggered_by(keymaps: Map<Action, Seq<KeyMap>>, act: Action, ke: KeyEvent) -> bool {
    &&& keymaps.dom().contains(act)
    &&& exists|i: int| 0 <= i < keymaps[act].len() && keymap_triggers(#[trigger] keymaps[act][i], ke)
}

/// The condition that picks the actions triggered by `ke`.
pub open spec fn triggered_by(keymaps: Map<Action, Seq<KeyMap>>, ke: KeyEvent) -> spec_fn(Action) -> bool {
    |a: Action| action_triggered_by(keymaps, a, ke)
}

/// The first of `actions` that `ke` triggers, or `Noop`.
pub open spec fn matched_action(keymaps: Map<Action, Seq<KeyMap>>, ke: KeyEvent, actions: Seq<Action>) -> Action {
    let k = first_match(actions, triggered_by(keymaps, ke));
    if k < actions.len() {
        actions[k]
    } else {
        Action::Noop
    }
}

impl Config {
    /// The key bindings of `act`; fails when it has none.
    pub fn action_keymaps(&self, act: &Action) -> (r: Result<&Vec<KeyMap>, ConfigError>)
        ensures
            r is Ok <==> self.keymaps@.dom().contains(*act),
            r matches Ok(v) ==> v@ == self.keymaps@[*act],
            r matches Err(e) ==> e == ConfigError::NoKeymaps(*act),
    {
        match self.keymaps.get(act) {
            Some(v) => Ok(v),
            None => Err(ConfigError::NoKeymaps(*act)),
        }
    }

    /// Whether `key_event` fires one of the bindings of `act`.
    pub fn action_triggered(&self, act: &Action, key_event: &KeyEvent) -> (b: bool)
        ensures
            b == action_triggered_by(self.keymaps@, *act, *key_event),
    {
        let keymaps = match self.action_keymaps(act) {
            Ok(k) => k,
            Err(_) => {
                return false;
            },
        };
        let mut i: usize = 0;
        while i < keymaps.len()
            invariant
                i <= keymaps@.len(),
                self.keymaps@.dom().contains(*act),
                keymaps@ == self.keymaps@[*act],
                forall|j: int| 0 <= j < i ==> !keymap_triggers(#[trigger] keymaps@[j], *key_event),
            decreases keymaps.len() - i,
        {
            let keymap = keymaps[i];
            let required = match keymap.modifiers {
                Some(m) => m,
                None => crate::tui::keys::KeyModifiers::empty(),
            };
            if key_event.modifiers.contains(required) && key_event.code == keymap.key {
                assert(keymap_triggers(keymaps@[i as int], *key_event));
                return true;
            }
            i = i + 1;
        }
        false
    }

    /// The first of `actions` that `key_event` triggers, or `Noop`.
    pub fn match_actions(&self, key_event: &KeyEvent, actions: &[Action]) -> (a: Action)
        ensures
            a == matched_action(self.keymaps@, *key_event, actions@),
    {
        let mut i: usize = 0;
        while i < actions.len()
            invariant
                i <= actions@.len(),
                forall|j: int| 0 <= j < i ==> !triggered_by(self.keymaps@, *key_event)(#[trigger] actions@[j]),
            decreases actions.len() - i,
        {
            if self.action_triggered(&actions[i], key_event) {
                proof {
                    lemma_first_match(actions@, triggered_by(self.keymaps@, *key_event), i as int);
                }
                return actions[i];
            }
            i = i + 1;
        }
        proof {
            lemma_first_match(actions@, triggered_by(self.keymaps@, *key_event), i as int);
        }
        Action::Noop
    }
}

/// The action a key press picks among `actions` is one of them, or `Noop`
/// when none is triggered.
pub proof fn lemma_matched_action_candidate(keymaps: Map<Action, Seq<KeyMap>>, ke: KeyEvent, actions: Seq<Action>)
    ensures
        matched_action(keymaps, ke, actions) == Action::Noop || actions.contains(matched_action(keymaps, ke, actions)),
        (forall|i: int| 0 <= i < actions.len() ==> !action_triggered_by(keymaps, #[trigger] actions[i], ke))
            ==> matched_action(keymaps, ke, actions) == Action::Noop,
{
    let k = first_match(actions, triggered_by(keymaps, ke));
    crate::search::lemma_first_match_exists(actions, triggered_by(keymaps, ke));
    if k < actions.len() {
        assert(actions[k] == matched_action(keymaps, ke, actions));
    }
}

/// Where some of `actions` is triggered by a key press, the action picked is
/// triggered by it and stands at a position before which none is.
pub proof fn lemma_matched_action_first(keymaps: Map<Action, Seq<KeyMap>>, ke: KeyEvent, actions: Seq<Action>)
    requires
        exists|i: int| 0 <= i < actions.len() && action_triggered_by(keymaps, #[trigger] actions[i], ke),
    ensures
        exists|i: int|
            0 <= i < actions.len() && #[trigger] actions[i] == matched_action(keymaps, ke, actions)
                && action_triggered_by(keymaps, actions[i], ke)
                && forall|j: int| 0 <= j < i ==> !action_triggered_by(keymaps, #[trigger] actions[j], ke),
{
    let p = triggered_by(keymaps, ke);
    crate::search::lemma_first_match_exists(actions, p);
    let k = first_match(actions, p);
    let w = choose|i: int| 0 <= i < actions.len() && action_triggered_by(keymaps, #[trigger] actions[i], ke);
    if k == actions.len() {
        assert(p(actions[w]));
        assert(false);
    }
    assert(actions[k] == matched_action(keymaps, ke, actions));
    assert forall|j: int| 0 <= j < k implies !action_triggered_by(keymaps, #[trigger] actions[j], ke) by {
        assert(!p(actions[j]));
    }
}

/// A binding that asks for no modifier fires on every press of its key,
/// whatever modifiers are held.
pub proof fn lemma_unmodified_binding(km: KeyMap, ke: KeyEvent)
    requires
        km.modifiers is None,
    ensures
        keymap_triggers(km, ke) <==> ke.code == km.key,
{
    let b: u8 = ke.modifiers.bits;
    assert(b & 0u8 == 0u8) by (bit_vector);
}

/// A binding fires on a press of its key with exactly the modifiers it asks
/// for, and never on a press of another key.
pub proof fn lemma_binding_own_key(km: KeyMap, ke: KeyEvent)
    ensures
        ke.code == km.key && (match km.modifiers {
            Some(m) => ke.modifiers == m,
            None => ke.modifiers.bits == 0,
        }) ==> keymap_triggers(km, ke),
        ke.code != km.key ==> !keymap_triggers(km, ke),
{
    let b: u8 = ke.modifiers.bits;
    assert(b & b == b) by (bit_vector);
    assert(b & 0u8 == 0u8) by (bit_vector);
}

/// Holding more modifiers never stops a binding from firing: a press of the
/// same key whose held modifiers include those of a press that fires `km`
/// fires it too.
pub proof fn lemma_more_modifiers_still_trigger(km: KeyMap, ke: KeyEvent, more: KeyEvent)
    requires
        keymap_triggers(km, ke),
        more.code == ke.code,
        more.modifiers.bits & ke.modifiers.bits == ke.modifiers.bits,
    ensures
        keymap_triggers(km, more),
{
    let required: u8 = match km.modifiers {
        Some(m) => m.bits,
        None => 0u8,
    };
    let b1: u8 = ke.modifiers.bits;
    let b2: u8 = more.modifiers.bits;
    assert((b1 & required == required) && (b2 & b1 == b1) ==> b2 & required == required)
        by (bit_vector);
}

/// An action that a key press triggers stays triggered when more modifiers
/// are held with the same key.
pub proof fn lemma_action_more_modifiers(
    keymaps: Map<Action, Seq<KeyMap>>,
    act: Action,
    ke: KeyEvent,
    more: KeyEvent,
)
    requires
        action_triggered_by(keymaps, act, ke),
        more.code == ke.code,
        more.modifiers.bits & ke.modifiers.bits == ke.modifiers.bits,
    ensures
        action_triggered_by(keymaps, act, more),
{
    let i = choose|i: int| 0 <= i < keymaps[act].len() && keymap_triggers(#[trigger] keymaps[act][i], ke);
    lemma_more_modifiers_still_trigger(keymaps[act][i], ke, more);
}

/// With the default bindings, the capital letters fire whatever modifiers
/// are held (a terminal reports shift with them): `J` focuses the images,
/// `K` the projects, `P` pushes and `D` deletes.
pub proof fn lemma_default_capitals(ke: KeyEvent)
    ensures
        ke.code == KeyCode::Char('J') ==> action_triggered_by(default_keymaps_spec(), Action::FocusImages, ke),
        ke.code == KeyCode::Char('K') ==> action_triggered_by(default_keymaps_spec(), Action::FocusProjects, ke),
        ke.code == KeyCode::Char('P') ==> action_triggered_by(default_keymaps_spec(), Action::PushImage, ke),
        ke.code == KeyCode::Char('D') ==> action_triggered_by(default_keymaps_spec(), Action::DeleteImage, ke),
{
    let km = default_keymaps_spec();
    lemma_unmodified_binding(km[Action::FocusImages][0], ke);
    lemma_unmodified_binding(km[Action::FocusProjects][0], ke);
    lemma_unmodified_binding(km[Action::PushImage][0], ke);
    lemma_unmodified_binding(km[Action::DeleteImage][0], ke);
}

/// The name of the backup of the configuration made at time `stamp`.
pub fn backup_file_name(stamp: &str) -> (n: String)
    ensures
        n@ == "config_backup_"@ + stamp@ + ".json"@,
{
    crate::text::concat_text(crate::text::concat_text("config_backup_", stamp).as_str(), ".json")
}

} // verus!
