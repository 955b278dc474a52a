use ship::tui::listing::{listing_output, ListingOutputError};
use ship::image::local::{LocalImage, RawLocalImage};
use ship::image::prelude::ParseImageError;
use ship::image::remote::RemoteImage;
use ship::image::tags::TagSet;
use ship::image::Image;
use ship::project::Project;
use ship::store::Store;
use ship::tui::config::{Config, RegistryCommands};
use ship::tui::listing::ListImagesError;
use ship::tui::state::{AppState, StateError};
use ship::utils::ShaParseError;

fn id_text(b: u8) -> String {
    format!("sha256:{}", format!("{:02x}", b).repeat(32))
}

fn raw(id: u8, digest: &str, repository: &str, tag: &str) -> RawLocalImage {
    RawLocalImage {
        containers: "0".to_string(),
        created_at: String::new(),
        created_since: String::new(),
        digest: digest.to_string(),
        id: id_text(id),
        repository: repository.to_string(),
        shared_size: String::new(),
        size: String::new(),
        tag: tag.to_string(),
        unique_size: String::new(),
    }
}

fn ids(v: &[LocalImage]) -> Vec<u8> {
    v.iter().map(|i| i.id[0]).collect()
}

fn state_with(images: Vec<LocalImage>, store: Store) -> AppState {
    AppState::new(AppState::list_projects(images), Config::default(), store)
}

#[test]
fn listing_keeps_images_in_order_of_id() {
    let raws = vec![raw(3, "<none>", "a/x", "v3"), raw(1, "<none>", "a/y", "v1"), raw(2, "<none>", "b/x", "v2")];
    let v = AppState::list_images(&raws).ok().unwrap();
    assert_eq!(ids(&v), vec![1, 2, 3]);
}

#[test]
fn listing_lines_of_one_image_join_tags_and_fill_the_digest() {
    let raws = vec![raw(5, "<none>", "a/x", "v1"), raw(5, &id_text(9), "a/x", "latest"), raw(5, &id_text(8), "a/x", "v2")];
    let v = AppState::list_images(&raws).ok().unwrap();
    assert_eq!(v.len(), 1);
    assert_eq!(v[0].tags.to_vec(), vec!["latest".to_string(), "v1".to_string(), "v2".to_string()]);
    assert_eq!(v[0].digest, Some([9; 32]));
}

#[test]
fn listing_errors_name_the_failing_field() {
    let bad_id = vec![RawLocalImage { id: "sha256:zz".to_string(), ..raw(1, "<none>", "a/x", "v") }];
    assert_eq!(AppState::list_images(&bad_id).err(), Some(ListImagesError::Id("sha256:zz".to_string())));
    let bad_digest = vec![raw(1, "<none>", "a/x", "v"), raw(1, "sha256:zz", "a/x", "w")];
    let e = AppState::list_images(&bad_digest).err().unwrap();
    assert_eq!(e, ListImagesError::Digest("sha256:zz".to_string(), ShaParseError::InvalidDigit));
    assert_eq!(e.message(), "invalid digit found in string");
    let short = vec![raw(1, "<none>", "a/x", "v"), raw(1, "sha256:00", "a/x", "w")];
    let e = AppState::list_images(&short).err().unwrap();
    assert_eq!(e, ListImagesError::Digest("sha256:00".to_string(), ShaParseError::WrongLength));
    assert_eq!(e.message(), "failed parsing sha256");
    let bad_containers = vec![RawLocalImage { containers: "many".to_string(), ..raw(1, "<none>", "a/x", "v") }];
    assert_eq!(
        AppState::list_images(&bad_containers).err(),
        Some(ListImagesError::Image(ParseImageError::Containers("many".to_string())))
    );
}

#[test]
fn listing_lines_that_would_be_cut_are_found_first() {
    let cut = vec![raw(1, "<none>", "a/x", "v"), RawLocalImage { id: "sha256:abc".to_string(), ..raw(1, "<none>", "a/x", "v") }];
    assert!(AppState::list_images_checked(&cut).is_none());
    assert!(AppState::listing_line_panics(&Vec::new(), &cut[1]));
    assert!(!AppState::listing_line_panics(&Vec::new(), &cut[0]));
    let fine = vec![raw(1, "<none>", "a/x", "v")];
    assert!(matches!(AppState::list_images_checked(&fine), Some(Ok(v)) if v.len() == 1));
}

#[test]
fn projects_group_images_by_the_last_segment_of_their_repository() {
    let raws = vec![raw(1, "<none>", "myrepo/myapp", "v1"), raw(2, "<none>", "other/tool", "v1"), raw(3, "<none>", "x/myapp", "v2")];
    let images = AppState::list_images(&raws).ok().unwrap();
    let projects = AppState::list_projects(images);
    let names: Vec<String> = projects.iter().map(|p| p.name.clone()).collect();
    assert_eq!(names, vec!["myapp".to_string(), "tool".to_string()]);
    assert_eq!(projects[0].images.len(), 2);
    assert_eq!(projects[1].images.len(), 1);
}

#[test]
fn the_store_images_are_recorded_in_their_projects() {
    let raws = vec![raw(1, &id_text(7), "myrepo/myapp", "v1")];
    let mut store = Store::empty();
    store.project_remote_images.insert(
        "myapp".to_string(),
        vec![
            RemoteImage { digest: [7; 32], tags: TagSet::singleton("prod".to_string()) },
            RemoteImage { digest: [8; 32], tags: TagSet::new() },
        ],
    );
    store.project_remote_images.insert("ghost".to_string(), vec![RemoteImage { digest: [9; 32], tags: TagSet::new() }]);
    let s = state_with(AppState::list_images(&raws).ok().unwrap(), store);
    assert_eq!(s.projects.len(), 1);
    let imgs = &s.projects[0].images;
    assert_eq!(imgs.len(), 2);
    match &imgs[0] {
        Image::Local(l) => assert_eq!(l.tags.to_vec(), vec!["prod".to_string(), "v1".to_string()]),
        _ => panic!("local"),
    }
    assert!(matches!(&imgs[1], Image::Remote(r) if r.digest == [8; 32]));
}

#[test]
fn refreshing_lists_the_projects_again() {
    let mut s = state_with(Vec::new(), Store::empty());
    assert!(s.projects.is_empty());
    let raws = vec![raw(1, "<none>", "a/app", "v1")];
    s.refresh_projects(AppState::list_images(&raws).ok().unwrap());
    assert_eq!(s.projects.len(), 1);
    assert_eq!(s.projects[0].name, "app");
}

#[test]
fn syncing_one_project_from_the_store() {
    let raws = vec![raw(1, "<none>", "a/app", "v1")];
    let mut s = state_with(AppState::list_images(&raws).ok().unwrap(), Store::empty());
    assert_eq!(s.sync_project_images_from_store("app"), Err(StateError::NotInStore("app".to_string())));
    s.store.project_remote_images.insert("zzz".to_string(), Vec::new());
    assert_eq!(s.sync_project_images_from_store("zzz"), Err(StateError::NotInState("zzz".to_string())));
    s.store.project_remote_images.insert("app".to_string(), vec![RemoteImage { digest: [4; 32], tags: TagSet::new() }]);
    assert_eq!(s.sync_project_images_from_store("app"), Ok(()));
    assert_eq!(s.projects[0].images.len(), 2);
}

#[test]
fn looking_up_projects_registries_and_commands() {
    let raws = vec![raw(1, "<none>", "a/app", "v1")];
    let mut config = Config::default();
    config.project_registries.insert("app".to_string(), "reg.io".to_string());
    let images = AppState::list_images(&raws).ok().unwrap();
    let mut s = AppState::new(AppState::list_projects(images), config, Store::empty());
    assert_eq!(s.find_project_with_name("app").map(|p| p.images.len()), Some(1));
    assert!(s.find_project_with_name("nope").is_none());
    assert_eq!(s.try_find_project_with_name("nope").err(), Some(StateError::ProjectNotFound("nope".to_string())));
    assert_eq!(s.try_find_local_image_with_id("app", &[1; 32]).ok().map(|l| l.id), Some([1; 32]));
    assert_eq!(s.try_find_local_image_with_id("app", &[2; 32]).err(), Some(StateError::ImageNotFound));
    assert_eq!(s.selected_registry(), Some(&"reg.io".to_string()));
    assert_eq!(s.try_get_selected_registry(), Ok(&"reg.io".to_string()));
    assert!(s.selected_cmds().is_none());
    s.config.registry_commands.insert(
        "reg.io".to_string(),
        RegistryCommands { delete_image: "d".to_string(), list_images: "l".to_string() },
    );
    assert_eq!(s.selected_cmds().map(|c| c.list_images), Some("l".to_string()));
    assert_eq!(s.get_oci_cmd(), "docker");
    assert_eq!(s.selected_project().name, "app");
    assert!(matches!(s.selected_image(), Image::Local(_)));
    let p: &Project = s.selected_project();
    assert_eq!(p.images.len(), 1);
}

#[test]
fn state_error_messages() {
    assert_eq!(StateError::ImageNotFound.message(), "Cannot find image");
    assert_eq!(StateError::NotLocal.message(), "Image is not local");
    assert_eq!(StateError::NoRegistry.message(), "Selected project has no configured registry");
    assert_eq!(StateError::NotInState("p".to_string()).message(), "Cannot find project \"p\" in state");
}

#[test]
fn listing_output_is_read_as_text() {
    assert_eq!(listing_output(true, b"{}\n".to_vec(), vec![0xff]), Ok("{}\n".to_string()));
    assert_eq!(listing_output(false, b"x".to_vec(), b"warn".to_vec()), Ok("x".to_string()));
    assert_eq!(listing_output(false, b"x".to_vec(), vec![0xff]), Err(ListingOutputError::Stderr));
    assert_eq!(listing_output(true, vec![0xc3], Vec::new()), Err(ListingOutputError::Stdout));
    assert_eq!(ListingOutputError::Stdout.message(), "Failed parsing stdout");
    assert_eq!(ListingOutputError::Stderr.message(), "Failed parsing stderr");
}
