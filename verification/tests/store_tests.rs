use ship::image::remote::RemoteImage;
use ship::image::tags::TagSet;
use ship::name_map::NameMap;
use ship::state::State;
use ship::store::{Store, StoreError};

fn remote(d: u8, ts: &[&str]) -> RemoteImage {
    RemoteImage { digest: [d; 32], tags: TagSet::from_vec(ts.iter().map(|t| t.to_string()).collect()) }
}

fn digests_of(store: &Store, name: &str) -> Vec<u8> {
    store.project_registry_digests.get(name).unwrap().iter().map(|d| d[0]).collect()
}

fn images_of(store: &Store, name: &str) -> Vec<u8> {
    store.project_remote_images.get(name).unwrap().iter().map(|r| r.digest[0]).collect()
}

#[test]
fn digest_lists_grow_and_shrink() {
    let mut store = Store::empty();
    store.project_registry_digests.insert("app".to_string(), vec![[1; 32], [2; 32], [1; 32]]);
    assert_eq!(store.push_digest("app", &[3; 32]), Ok(()));
    assert_eq!(digests_of(&store, "app"), vec![1, 2, 1, 3]);
    assert_eq!(store.remove_digest("app", &[1; 32]), Ok(()));
    assert_eq!(digests_of(&store, "app"), vec![2, 3]);
}

#[test]
fn digest_updates_need_a_known_project() {
    let mut store = Store::empty();
    assert_eq!(store.push_digest("app", &[3; 32]), Err(StoreError::DigestsNotFound));
    assert_eq!(store.remove_digest("app", &[3; 32]), Err(StoreError::DigestsNotFound));
    assert!(store.project_registry_digests.get("app").is_none());
}

#[test]
fn image_lists_grow_and_shrink() {
    let mut store = Store::empty();
    store.project_remote_images.insert("app".to_string(), vec![remote(1, &["a"]), remote(2, &["b"])]);
    store.project_remote_images.insert("other".to_string(), vec![remote(1, &["z"])]);
    assert_eq!(store.push_remote_image("app", remote(3, &["c"])), Ok(()));
    assert_eq!(images_of(&store, "app"), vec![1, 2, 3]);
    assert_eq!(store.remove_remote_image("app", &remote(1, &[])), Ok(()));
    assert_eq!(images_of(&store, "app"), vec![2, 3]);
    assert_eq!(images_of(&store, "other"), vec![1]);
}

#[test]
fn removing_right_after_pushing_is_removing_alone() {
    let mut a = Store::empty();
    a.project_remote_images.insert("app".to_string(), vec![remote(1, &["a"]), remote(2, &["b"])]);
    let mut b = Store::empty();
    b.project_remote_images.insert("app".to_string(), vec![remote(1, &["a"]), remote(2, &["b"])]);
    a.push_remote_image("app", remote(2, &["new"])).unwrap();
    a.remove_remote_image("app", &remote(2, &[])).unwrap();
    b.remove_remote_image("app", &remote(2, &[])).unwrap();
    assert_eq!(images_of(&a, "app"), images_of(&b, "app"));
    assert_eq!(images_of(&a, "app"), vec![1]);
}

#[test]
fn image_updates_need_a_known_project() {
    let mut store = Store::empty();
    assert_eq!(store.push_remote_image("app", remote(3, &[])), Err(StoreError::ProjectNotFound));
    assert_eq!(store.remove_remote_image("app", &remote(3, &[])), Err(StoreError::ProjectNotFound));
}

#[test]
fn store_error_messages() {
    assert_eq!(StoreError::DigestsNotFound.message(), "Cannot find digest");
    assert_eq!(StoreError::ProjectNotFound.message(), "Cannot find project");
}

#[test]
fn sync_applies_the_setter() {
    let mut store = Store::empty();
    let r = store.sync(|mut s| {
        s.project_remote_images.insert("app".to_string(), vec![remote(5, &["x"])]);
        (s, Ok(()))
    });
    assert_eq!(r, Ok(()));
    assert_eq!(images_of(&store, "app"), vec![5]);
    let r = store.sync(|s| (s, Err(StoreError::ProjectNotFound)));
    assert_eq!(r, Err(StoreError::ProjectNotFound));
}

#[test]
fn state_sync_applies_the_setter() {
    let mut state = State::empty();
    state.sync(|mut s| {
        s.project_registry_digests.insert("app".to_string(), vec![[4; 32]]);
        s
    });
    assert_eq!(state.project_registry_digests.get("app").map(|v| v.len()), Some(1));
}

#[test]
fn name_maps_keep_one_entry_per_name() {
    let mut m: NameMap<u32> = NameMap::new();
    assert_eq!(m.insert("a".to_string(), 1), None);
    assert_eq!(m.insert("b".to_string(), 2), None);
    assert_eq!(m.insert("a".to_string(), 3), Some(1));
    assert_eq!(m.len(), 2);
    assert_eq!(m.get("a"), Some(&3));
    assert_eq!(m.key_at(0), "a");
    assert_eq!(*m.value_at(1), 2);
    assert_eq!(m.index_of("b"), Some(1));
    assert!(m.keys_distinct());
    assert_eq!(m.get("c"), None);
}

#[test]
fn pushing_then_removing_an_absent_digest_restores_the_list() {
    let mut store = Store::empty();
    store.project_registry_digests.insert("app".to_string(), vec![[1; 32], [2; 32]]);
    store.project_remote_images.insert("app".to_string(), vec![remote(1, &["a"])]);
    store.push_digest("app", &[3; 32]).unwrap();
    store.remove_digest("app", &[3; 32]).unwrap();
    assert_eq!(digests_of(&store, "app"), vec![1, 2]);
    assert_eq!(images_of(&store, "app"), vec![1]);
    store.push_remote_image("app", remote(4, &["b"])).unwrap();
    store.remove_remote_image("app", &remote(4, &[])).unwrap();
    assert_eq!(images_of(&store, "app"), vec![1]);
}
