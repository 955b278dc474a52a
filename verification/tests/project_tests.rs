use ship::image::local::LocalImage;
use ship::image::remote::RemoteImage;
use ship::image::tags::TagSet;
use ship::image::Image;
use ship::project::{Project, ProjectError};

fn tags(ts: &[&str]) -> TagSet {
    TagSet::from_vec(ts.iter().map(|t| t.to_string()).collect())
}

fn local(id: u8, digest: Option<u8>, ts: &[&str]) -> LocalImage {
    LocalImage {
        containers: 0,
        digest: digest.map(|d| [d; 32]),
        id: [id; 32],
        tags: tags(ts),
        created_at: String::new(),
        created_since: String::new(),
        repository: "myrepo/myapp".to_string(),
        shared_size: String::new(),
        size: String::new(),
        unique_size: String::new(),
    }
}

fn project_with(images: Vec<Image>) -> Project {
    let mut p = Project::new("myapp");
    p.images = images;
    p
}

#[test]
fn project_name_is_the_last_segment_of_the_repository() {
    assert_eq!(Project::get_project_name("myrepo/myapp"), Ok("myapp"));
    assert_eq!(Project::get_project_name("registry.io/team/myapp"), Ok("myapp"));
    assert_eq!(Project::get_project_name("myapp"), Ok("myapp"));
    assert_eq!(Project::get_project_name("myrepo/"), Ok(""));
}

#[test]
fn new_project_is_empty() {
    let p = Project::new("myapp");
    assert_eq!(p.name, "myapp");
    assert!(p.images.is_empty());
}

#[test]
fn finds_local_images_by_id() {
    let p = project_with(vec![
        Image::Remote(RemoteImage { digest: [1; 32], tags: tags(&["r"]) }),
        Image::Local(local(2, None, &["a"])),
        Image::Local(local(3, None, &["b"])),
    ]);
    match p.find_image_with_id(&[3; 32]) {
        Some(Image::Local(l)) => assert_eq!(l.tags.to_vec(), vec!["b".to_string()]),
        _ => panic!("image 3 is listed"),
    }
    assert!(p.find_image_with_id(&[1; 32]).is_none());
    assert!(p.try_find_image_with_id(&[9; 32]).err() == Some(ProjectError::ImageNotFound));
    assert_eq!(p.try_find_local_image_with_id(&[2; 32]).ok().map(|l| l.id), Some([2; 32]));
    assert!(p.try_find_local_image_with_id(&[9; 32]).err() == Some(ProjectError::ImageNotFound));
}

#[test]
fn merging_a_known_digest_updates_that_image() {
    let mut p = project_with(vec![Image::Local(local(1, Some(7), &["v1"])), Image::Local(local(2, None, &["v2"]))]);
    p.merge_remote_image(&RemoteImage { digest: [7; 32], tags: tags(&["latest"]) });
    assert_eq!(p.images.len(), 2);
    match &p.images[0] {
        Image::Local(l) => assert_eq!(l.tags.to_vec(), vec!["latest".to_string(), "v1".to_string()]),
        _ => panic!("stays local"),
    }
}

#[test]
fn merging_an_unknown_digest_adds_a_remote_image() {
    let mut p = project_with(vec![Image::Local(local(1, None, &["v1"]))]);
    p.merge_remote_image(&RemoteImage { digest: [8; 32], tags: tags(&["old"]) });
    assert_eq!(p.images.len(), 2);
    match &p.images[1] {
        Image::Remote(r) => {
            assert_eq!(r.digest, [8; 32]);
            assert_eq!(r.tags.to_vec(), vec!["old".to_string()]);
        },
        _ => panic!("added as remote"),
    }
}

#[test]
fn merging_the_same_remote_image_twice_adds_nothing_more() {
    let mut p = project_with(vec![Image::Local(local(1, None, &["v1"]))]);
    let r = RemoteImage { digest: [8; 32], tags: tags(&["old"]) };
    p.merge_remote_image(&r);
    p.merge_remote_image(&r);
    assert_eq!(p.images.len(), 2);
    let rs = vec![RemoteImage { digest: [1; 32], tags: tags(&["a"]) }, RemoteImage { digest: [8; 32], tags: tags(&["b"]) }];
    p.merge_remote_images(&rs);
    assert_eq!(p.images.len(), 3);
    match &p.images[1] {
        Image::Remote(x) => assert_eq!(x.tags.to_vec(), vec!["b".to_string(), "old".to_string()]),
        _ => panic!("remote"),
    }
}

#[test]
fn merging_again_leaves_every_image_as_it_was() {
    let mut p = project_with(vec![Image::Local(local(1, Some(7), &["v1"])), Image::Local(local(2, None, &["v2"]))]);
    let r = RemoteImage { digest: [7; 32], tags: tags(&["latest", "v1"]) };
    p.merge_remote_image(&r);
    let once: Vec<(Option<[u8; 32]>, Vec<String>)> = p
        .images
        .iter()
        .map(|i| match i {
            Image::Local(l) => (l.digest, l.tags.to_vec()),
            Image::Remote(x) => (Some(x.digest), x.tags.to_vec()),
        })
        .collect();
    p.merge_remote_image(&r);
    let twice: Vec<(Option<[u8; 32]>, Vec<String>)> = p
        .images
        .iter()
        .map(|i| match i {
            Image::Local(l) => (l.digest, l.tags.to_vec()),
            Image::Remote(x) => (Some(x.digest), x.tags.to_vec()),
        })
        .collect();
    assert_eq!(once, twice);
}
