use ship::image::local::LocalImage;
use ship::image::remote::{RawRemoteImage, RemoteImage};
use ship::image::tags::TagSet;
use ship::image::Image;
use ship::name_map::NameMap;
use ship::project::Project;
use ship::store::Store;
use ship::tui::actions::Action;
use ship::tui::app::{App, Effect, StepError};
use ship::tui::commands::ActionError;
use ship::tui::config::{CommandBehaviour, Config, RegistryCommands};
use ship::tui::external_command::CommandError;
use ship::tui::keys::{Event, KeyCode, KeyEvent, KeyModifiers};
use ship::tui::state::{AppState, Focus, PopupVariant, StateError};
use ship::tui::table::TableState;

const REG: &str = "reg.io/team";

fn tags(ts: &[&str]) -> TagSet {
    TagSet::from_vec(ts.iter().map(|t| t.to_string()).collect())
}

fn hex(b: u8) -> String {
    format!("{:02x}", b).repeat(32)
}

fn local(id: u8, digest: Option<u8>, ts: &[&str]) -> LocalImage {
    LocalImage {
        containers: 0,
        digest: digest.map(|d| [d; 32]),
        id: [id; 32],
        tags: tags(ts),
        created_at: String::new(),
        created_since: String::new(),
        repository: "myrepo/myapp".to_string(),
        shared_size: String::new(),
        size: String::new(),
        unique_size: String::new(),
    }
}

fn config() -> Config {
    let mut c = Config::default();
    c.project_registries.insert("myapp".to_string(), REG.to_string());
    c.registry_commands.insert(
        REG.to_string(),
        RegistryCommands {
            delete_image: "del {id} {repository} {project} {digest}".to_string(),
            list_images: "ls {project}".to_string(),
        },
    );
    c
}

fn store() -> Store {
    let mut s = Store::empty();
    s.project_remote_images.insert("myapp".to_string(), vec![RemoteImage { digest: [0x0a; 32], tags: tags(&["v1"]) }]);
    s.project_registry_digests.insert("myapp".to_string(), vec![[0x0a; 32], [0x0c; 32]]);
    s
}

fn state() -> AppState {
    let mut p = Project::new("myapp");
    p.images = vec![
        Image::Local(local(1, Some(0x0a), &["v1", "latest"])),
        Image::Local(local(2, None, &["dev"])),
        Image::Remote(RemoteImage { digest: [0x0b; 32], tags: tags(&["a", "b"]) }),
        Image::Local(local(3, Some(0x0c), &["old"])),
        Image::Remote(RemoteImage { digest: [0x0d; 32], tags: TagSet::new() }),
    ];
    AppState {
        projects: vec![p],
        config: config(),
        store: store(),
        loading: None,
        spinner_frame: 0,
        exit: false,
        project_table_state: TableState::new().with_selected(0),
        image_table_state: TableState::new().with_selected(0),
        popup: None,
        focus: Focus::Projects,
    }
}

fn select_image(s: &mut AppState, i: usize) {
    s.image_table_state.select(Some(i));
}

#[test]
fn moving_the_selection_and_the_focus() {
    let mut s = state();
    assert!(matches!(s.apply_action(Action::SelectDown), Ok(Effect::Nothing)));
    assert_eq!(s.project_table_state.selected(), Some(1));
    assert!(matches!(s.apply_action(Action::SelectUp), Ok(Effect::Nothing)));
    assert_eq!(s.project_table_state.selected(), Some(0));
    assert!(matches!(s.apply_action(Action::FocusImages), Ok(Effect::Nothing)));
    assert!(matches!(s.focus, Focus::Images));
    assert!(matches!(s.apply_action(Action::SelectDown), Ok(Effect::Nothing)));
    assert_eq!(s.image_table_state.selected(), Some(1));
    assert_eq!(s.project_table_state.selected(), Some(0));
    assert!(matches!(s.apply_action(Action::FocusProjects), Ok(Effect::Nothing)));
    assert!(matches!(s.focus, Focus::Projects));
    assert!(matches!(s.apply_action(Action::Noop), Ok(Effect::Nothing)));
    assert!(matches!(s.apply_action(Action::Quit), Ok(Effect::Nothing)));
    assert!(s.exit);
}

#[test]
fn closing_the_popup_gives_the_focus_back() {
    let mut s = state();
    s.focus = Focus::Images;
    s.show_error("boom".to_string());
    assert!(matches!(&s.popup, Some(PopupVariant::Error(m)) if m == "boom"));
    assert!(matches!(&s.focus, Focus::Popup(f) if matches!(**f, Focus::Images)));
    assert!(matches!(s.apply_action(Action::ClosePopup), Ok(Effect::Nothing)));
    assert!(s.popup.is_none());
    assert!(matches!(s.focus, Focus::Images));
    assert!(matches!(s.apply_action(Action::ClosePopup), Ok(Effect::Nothing)));
    assert!(matches!(s.focus, Focus::Images));
}

#[test]
fn deleting_a_local_image_builds_its_command() {
    let mut s = state();
    match s.apply_action(Action::DeleteImage) {
        Ok(Effect::Delete { deletions, interactive }) => {
            assert!(interactive);
            assert_eq!(deletions.len(), 1);
            assert_eq!(deletions[0].plan.project_name, "myapp");
            assert_eq!(deletions[0].plan.command, format!("del {} myrepo/myapp myapp {}", hex(1), hex(0x0a)));
            assert_eq!(deletions[0].image.id, [1; 32]);
        },
        _ => panic!("a deletion"),
    }
    assert!(s.loading.is_none());
}

#[test]
fn deleting_in_the_background_shows_loading() {
    let mut s = state();
    s.config.command_behaviours.delete_image = CommandBehaviour::Async;
    assert!(matches!(s.apply_action(Action::DeleteImage), Ok(Effect::Delete { interactive: false, .. })));
    assert_eq!(s.loading.as_deref(), Some("Deleting image..."));
}

#[test]
fn deleting_fails_for_remote_or_undigested_images_or_without_commands() {
    let mut s = state();
    select_image(&mut s, 2);
    assert_eq!(s.apply_action(Action::DeleteImage).err(), Some(ActionError::NotLocal));
    select_image(&mut s, 1);
    assert_eq!(s.apply_action(Action::DeleteImage).err(), Some(ActionError::NoDigest));
    let mut t = state();
    t.config.registry_commands = NameMap::new();
    assert_eq!(t.apply_action(Action::DeleteImage).err(), Some(ActionError::NoRegistryCommands));
    assert!(t.loading.is_none());
}

#[test]
fn pruning_deletes_the_local_images_the_registry_lists() {
    let mut s = state();
    match s.apply_action(Action::PruneImages) {
        Ok(Effect::Delete { deletions, .. }) => {
            let ids: Vec<u8> = deletions.iter().map(|d| d.image.id[0]).collect();
            assert_eq!(ids, vec![1, 3]);
            assert_eq!(deletions[1].plan.command, format!("del {} myrepo/myapp myapp {}", hex(3), hex(0x0c)));
        },
        _ => panic!("deletions"),
    }
    let mut t = state();
    t.store.project_registry_digests = NameMap::new();
    match t.apply_action(Action::PruneImages) {
        Ok(Effect::Delete { deletions, .. }) => assert!(deletions.is_empty()),
        _ => panic!("nothing to prune"),
    }
    let mut u = state();
    u.config.registry_commands = NameMap::new();
    assert_eq!(u.apply_action(Action::PruneImages).err(), Some(ActionError::NoRegistryCommands));
}

#[test]
fn fetching_lists_the_project() {
    let mut s = state();
    match s.apply_action(Action::FetchImages) {
        Ok(Effect::Fetch { listing }) => {
            assert_eq!(listing.project_name, "myapp");
            assert_eq!(listing.command, "ls myapp");
        },
        _ => panic!("a fetch"),
    }
    assert_eq!(s.loading.as_deref(), Some("Fetching images..."));
    let mut t = state();
    t.config.project_registries = NameMap::new();
    assert_eq!(t.apply_action(Action::FetchImages).err(), Some(ActionError::NoRegistryCommands));
    assert!(t.loading.is_none());
}

#[test]
fn pulling_a_remote_image_uses_its_first_tag() {
    let mut s = state();
    select_image(&mut s, 2);
    match s.apply_action(Action::PullImage) {
        Ok(Effect::Pull { pull, interactive }) => {
            assert!(interactive);
            assert_eq!(pull.image, "reg.io/team/myapp:a");
            assert_eq!(pull.retags, vec!["reg.io/team/myapp:b".to_string()]);
        },
        _ => panic!("a pull"),
    }
    select_image(&mut s, 0);
    assert_eq!(s.apply_action(Action::PullImage).err(), Some(ActionError::NotRemote));
    select_image(&mut s, 4);
    assert_eq!(s.apply_action(Action::PullImage).err(), Some(ActionError::Untagged));
    s.config.project_registries = NameMap::new();
    assert_eq!(s.apply_action(Action::PullImage).err(), Some(ActionError::NoRegistry));
}

#[test]
fn pushing_a_local_image_tags_each_reference() {
    let mut s = state();
    s.config.command_behaviours.push_image = CommandBehaviour::Async;
    match s.apply_action(Action::PushImage) {
        Ok(Effect::Push { push, project_name, interactive }) => {
            assert!(!interactive);
            assert_eq!(project_name, "myapp");
            assert_eq!(push.id, hex(1));
            assert_eq!(push.tag_urls, vec!["reg.io/team/myapp:latest".to_string(), "reg.io/team/myapp:v1".to_string()]);
        },
        _ => panic!("a push"),
    }
    assert_eq!(s.loading.as_deref(), Some("Pushing image"));
    let mut t = state();
    select_image(&mut t, 2);
    assert_eq!(t.apply_action(Action::PushImage).err(), Some(ActionError::NotLocal));
}

#[test]
fn readiness_follows_the_selection() {
    let mut s = state();
    assert!(s.is_ready_for(Action::PushImage));
    select_image(&mut s, 5);
    assert!(!s.is_ready_for(Action::PushImage));
    assert!(s.is_ready_for(Action::FetchImages));
    s.project_table_state.select(Some(1));
    assert!(!s.is_ready_for(Action::FetchImages));
    assert!(s.is_ready_for(Action::Quit));
    s.project_table_state.select(None);
    assert!(!s.is_ready_for(Action::PruneImages));
}

#[test]
fn a_failed_action_shows_its_message() {
    let mut app = App { root_component: ship::tui::widgets::RootWidget::new(), state: state() };
    select_image(&mut app.state, 2);
    assert_eq!(app.handle_action(Action::DeleteImage).err(), Some(ActionError::NotLocal));
    assert!(matches!(&app.state.popup, Some(PopupVariant::Error(m)) if m == "Image is not local"));
    assert!(matches!(&app.state.focus, Focus::Popup(_)));
    let key_q = KeyEvent { code: KeyCode::Char('q'), modifiers: KeyModifiers::empty() };
    assert_eq!(app.next_action(&Event::Key(key_q)), Action::ClosePopup);
}

#[test]
fn the_loop_starts_from_the_given_parts() {
    let mut p = Project::new("myapp");
    p.images = vec![Image::Local(local(1, Some(0x0a), &["v1"]))];
    let mut app = App::from_parts(vec![p], config(), store());
    assert_eq!(app.state.spinner_frame, 0);
    assert!(matches!(app.state.focus, Focus::Projects));
    app.tick();
    assert_eq!(app.state.spinner_frame, 1);
    for _ in 0..9 {
        app.tick();
    }
    assert_eq!(app.state.spinner_frame, 0);
    app.fail(&StepError::Store(ship::store::StoreError::ProjectNotFound));
    assert!(matches!(&app.state.popup, Some(PopupVariant::Error(m)) if m == "Cannot find project"));
}

#[test]
fn fetched_images_are_stored_and_recorded() {
    let mut s = state();
    s.loading = Some("Fetching images...".to_string());
    let raws = vec![
        RawRemoteImage { digest: format!("sha256:{}", hex(0x0c)), tags: tags(&["prod"]) },
        RawRemoteImage { digest: format!("sha256:{}", hex(0x0e)), tags: tags(&["x"]) },
    ];
    assert!(matches!(s.record_fetched_images("myapp", &raws), Some(Ok(()))));
    assert!(s.loading.is_none());
    let stored: Vec<u8> = s.store.project_remote_images.get("myapp").unwrap().iter().map(|r| r.digest[0]).collect();
    assert_eq!(stored, vec![0x0c, 0x0e]);
    let imgs = &s.projects[0].images;
    assert_eq!(imgs.len(), 6);
    match &imgs[3] {
        Image::Local(l) => assert_eq!(l.tags.to_vec(), vec!["old".to_string(), "prod".to_string()]),
        _ => panic!("local"),
    }
    assert!(matches!(&imgs[5], Image::Remote(r) if r.digest == [0x0e; 32]));
}

#[test]
fn fetched_images_that_do_not_parse_change_nothing() {
    let mut s = state();
    let raws = vec![RawRemoteImage { digest: "sha256:zz".to_string(), tags: TagSet::new() }];
    match s.record_fetched_images("myapp", &raws) {
        Some(Err(e)) => assert_eq!(e.message(), "Failed to parse remote images from the list images command"),
        _ => panic!("an error"),
    }
    assert_eq!(s.store.project_remote_images.get("myapp").unwrap().len(), 1);
    let cut = vec![RawRemoteImage { digest: "sha256:abc".to_string(), tags: TagSet::new() }];
    assert!(s.record_fetched_images("myapp", &cut).is_none());
}

#[test]
fn fetched_images_for_an_unknown_project_are_still_stored() {
    let mut s = state();
    let raws = vec![RawRemoteImage { digest: format!("sha256:{}", hex(0x0e)), tags: TagSet::new() }];
    match s.record_fetched_images("ghost", &raws) {
        Some(Err(StepError::State(StateError::NotInState(n)))) => assert_eq!(n, "ghost"),
        _ => panic!("not in state"),
    }
    assert_eq!(s.store.project_remote_images.get("ghost").unwrap().len(), 1);
    assert_eq!(s.projects[0].images.len(), 5);
}

#[test]
fn a_finished_deletion_drops_the_image_from_the_store() {
    let mut s = state();
    let deletion = match s.apply_action(Action::DeleteImage) {
        Ok(Effect::Delete { mut deletions, .. }) => deletions.remove(0),
        _ => panic!("a deletion"),
    };
    s.loading = Some("Deleting image...".to_string());
    assert!(s.finish_deletion(&deletion, true).is_ok());
    assert!(s.loading.is_none());
    assert!(s.store.project_remote_images.get("myapp").unwrap().is_empty());
    let mut t = state();
    t.store.project_remote_images = NameMap::new();
    match t.finish_deletion(&deletion, false) {
        Err(e) => assert_eq!(e.message(), "Cannot find project"),
        Ok(_) => panic!("no image list"),
    }
}

#[test]
fn a_pushed_image_is_recorded_in_the_store() {
    let mut s = state();
    s.loading = Some("Pushing image".to_string());
    assert!(s.record_pushed_image("myapp", true).is_ok());
    assert!(s.loading.is_none());
    let stored = s.store.project_remote_images.get("myapp").unwrap();
    assert_eq!(stored.len(), 2);
    assert_eq!(stored[1].digest, [0x0a; 32]);
    assert_eq!(stored[1].tags.to_vec(), vec!["latest".to_string(), "v1".to_string()]);
    select_image(&mut s, 1);
    match s.record_pushed_image("myapp", false) {
        Err(e) => assert_eq!(e.message(), "failed parsing \"Digest\" field: <none>"),
        Ok(_) => panic!("no digest"),
    }
    select_image(&mut s, 0);
    match s.record_pushed_image("other", false) {
        Err(e) => assert_eq!(e.message(), "Cannot find project"),
        Ok(_) => panic!("no image list"),
    }
}

#[test]
fn step_error_messages() {
    assert_eq!(StepError::Action(ActionError::NoDigest).message(), "Image has no digest");
    assert_eq!(
        StepError::Action(ActionError::NoRegistryCommands).message(),
        "Unconfigured registry or registry commands"
    );
    assert_eq!(
        StepError::Action(ActionError::NoRegistry).message(),
        "Selected project has no configured registry"
    );
    assert_eq!(StepError::Action(ActionError::NotRemote).message(), "Cannot pull local image");
    assert_eq!(StepError::Action(ActionError::Untagged).message(), "Image has not been tagged");
    assert_eq!(
        StepError::State(StateError::NotInStore("app".to_string())).message(),
        "Cannot find project \"app\" in store"
    );
    assert_eq!(StepError::State(StateError::ProjectNotFound("app".to_string())).message(), "Cannot find project \"app\"");
    let unsuccessful = CommandError::Unsuccessful { command: "ls".to_string(), stderr: "no".to_string() };
    assert_eq!(StepError::Command(unsuccessful).message(), "Unsuccessful command \"ls\"");
    assert_eq!(StepError::FetchCommand.message(), "Failed to run list images command");
    assert_eq!(
        StepError::FetchOutput("[".to_string()).message(),
        "Failed parsing list images command result: \"[\""
    );
}

#[test]
fn an_image_without_digest_is_refused_before_the_selection_is_read() {
    let mut s = state();
    s.projects = Vec::new();
    assert_eq!(s.delete_image_command(&local(2, None, &["dev"])).err(), Some(ActionError::NoDigest));
}
