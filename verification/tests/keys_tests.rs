use ship::tui::actions::{global_actions, image_actions, popup_actions, project_actions, Action};
use ship::tui::component::Component;
use ship::tui::config::default_keymaps::default_keymaps;
use ship::tui::config::keymaps::{KeyMap, Keymaps};
use ship::tui::config::{backup_file_name, CommandBehaviour, Config, ConfigError};
use ship::tui::keys::{Event, KeyCode, KeyEvent, KeyModifiers};
use ship::tui::state::{AppState, Focus, PopupVariant};
use ship::tui::widgets::RootWidget;
use ship::store::Store;

fn key(c: char) -> KeyEvent {
    KeyEvent { code: KeyCode::Char(c), modifiers: KeyModifiers::empty() }
}

fn state() -> AppState {
    AppState::new(Vec::new(), Config::default(), Store::empty())
}

#[test]
fn action_names() {
    assert_eq!(Action::SelectUp.name(), "SelectUp");
    assert_eq!(Action::FetchImages.name(), "FetchImages");
    assert_eq!(Action::ClosePopup.name(), "ClosePopup");
    assert_eq!(Action::Noop.name(), "Noop");
}

#[test]
fn action_groups() {
    assert_eq!(global_actions(), vec![Action::SelectUp, Action::SelectDown, Action::Quit]);
    assert_eq!(image_actions(), vec![Action::FocusProjects, Action::PushImage, Action::PullImage, Action::DeleteImage]);
    assert_eq!(project_actions(), vec![Action::FocusImages, Action::FetchImages, Action::PruneImages]);
    assert_eq!(popup_actions(), vec![Action::ClosePopup]);
}

#[test]
fn default_keymaps_bind_every_action_but_noop() {
    let k = default_keymaps();
    for a in [
        Action::SelectUp,
        Action::SelectDown,
        Action::FocusImages,
        Action::FocusProjects,
        Action::PushImage,
        Action::PullImage,
        Action::DeleteImage,
        Action::FetchImages,
        Action::PruneImages,
        Action::Quit,
        Action::ClosePopup,
    ] {
        assert!(!k.get(&a).unwrap().is_empty());
    }
    assert!(k.get(&Action::Noop).is_none());
    assert_eq!(k.get(&Action::SelectDown).unwrap(), &vec![KeyMap::char('j', None), KeyMap::from((None, KeyCode::Down))]);
    assert_eq!(k.get(&Action::Quit).unwrap()[0], KeyMap::char('c', Some(KeyModifiers::control())));
}

#[test]
fn keymaps_insert_replaces() {
    let mut k = Keymaps::new();
    assert!(k.get(&Action::Quit).is_none());
    k.insert(Action::Quit, vec![KeyMap::char('x', None)]);
    k.insert(Action::Quit, vec![KeyMap::char('y', None)]);
    assert_eq!(k.get(&Action::Quit).unwrap(), &vec![KeyMap::char('y', None)]);
}

#[test]
fn modifiers_must_all_be_held() {
    let ctrl = KeyModifiers::control();
    let ctrl_alt = KeyModifiers { bits: ctrl.bits | KeyModifiers::alt().bits };
    assert!(ctrl_alt.contains(ctrl));
    assert!(!ctrl.contains(ctrl_alt));
    assert!(ctrl.contains(KeyModifiers::empty()));
    assert!(!KeyModifiers::empty().contains(KeyModifiers::shift()));
}

#[test]
fn config_matches_actions_in_order() {
    let c = Config::default();
    assert_eq!(c.match_actions(&key('j'), &[Action::SelectUp, Action::SelectDown]), Action::SelectDown);
    assert_eq!(c.match_actions(&key('P'), &[Action::PruneImages, Action::PushImage]), Action::PruneImages);
    assert_eq!(c.match_actions(&key('P'), &[Action::PushImage, Action::PruneImages]), Action::PushImage);
    assert_eq!(c.match_actions(&key('z'), &[Action::SelectUp]), Action::Noop);
    let ctrl_c = KeyEvent { code: KeyCode::Char('c'), modifiers: KeyModifiers::control() };
    assert!(c.action_triggered(&Action::Quit, &ctrl_c));
    assert!(!c.action_triggered(&Action::Quit, &key('c')));
    assert!(!c.action_triggered(&Action::Noop, &key('c')));
    assert_eq!(c.action_keymaps(&Action::Noop).err(), Some(ConfigError::NoKeymaps(Action::Noop)));
}

#[test]
fn config_defaults() {
    let c = Config::default();
    assert_eq!(c.oci_cmd, "docker");
    assert_eq!(c.project_registries.len(), 0);
    assert_eq!(c.registry_commands.len(), 0);
    assert_eq!(c.command_behaviours.push_image, CommandBehaviour::Interactive);
    assert_eq!(c.command_behaviours.delete_image, CommandBehaviour::Interactive);
    assert_eq!(c.command_behaviours.pull_image, CommandBehaviour::Interactive);
    assert_eq!(CommandBehaviour::default(), CommandBehaviour::Interactive);
    assert_eq!(backup_file_name("2024-01-01T00:00:00+00:00"), "config_backup_2024-01-01T00:00:00+00:00.json");
}

#[test]
fn root_widget_global_keys() {
    let mut root = RootWidget::new();
    let mut s = state();
    assert_eq!(root.handle_key_events(&key('j'), &s), Action::SelectDown);
    assert_eq!(root.handle_key_events(&KeyEvent { code: KeyCode::Up, modifiers: KeyModifiers::empty() }, &s), Action::SelectUp);
    assert_eq!(root.handle_key_events(&key('q'), &s), Action::Quit);
    assert_eq!(root.handle_key_events(&KeyEvent { code: KeyCode::Esc, modifiers: KeyModifiers::empty() }, &s), Action::Quit);
    s.popup = Some(PopupVariant::Info("hi".to_string()));
    assert_eq!(root.handle_key_events(&key('q'), &s), Action::ClosePopup);
    assert_eq!(root.handle_key_events(&key('x'), &s), Action::Noop);
}

#[test]
fn root_widget_asks_the_focused_part_first() {
    let mut root = RootWidget::new();
    let mut s = state();
    assert_eq!(root.handle_events(&Event::Key(key('J')), &s), Action::FocusImages);
    assert_eq!(root.handle_events(&Event::Key(key('f')), &s), Action::FetchImages);
    assert_eq!(root.handle_events(&Event::Key(key('D')), &s), Action::Noop);
    assert_eq!(root.handle_events(&Event::Key(key('j')), &s), Action::SelectDown);
    assert_eq!(root.handle_events(&Event::Other, &s), Action::Noop);
    s.focus = Focus::Images;
    assert_eq!(root.handle_events(&Event::Key(key('D')), &s), Action::DeleteImage);
    assert_eq!(root.handle_events(&Event::Key(key('K')), &s), Action::FocusProjects);
    assert_eq!(root.handle_events(&Event::Key(key('P')), &s), Action::PushImage);
    assert_eq!(root.handle_events(&Event::Key(key('p')), &s), Action::Noop);
    s.focus = Focus::Popup(Box::new(Focus::Images));
    s.popup = Some(PopupVariant::Error("e".to_string()));
    assert_eq!(root.handle_events(&Event::Key(key('q')), &s), Action::ClosePopup);
    assert_eq!(root.handle_events(&Event::Key(key('D')), &s), Action::Noop);
}
