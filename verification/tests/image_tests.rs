use ship::image::local::{LocalImage, RawLocalImage};
use ship::image::prelude::ParseImageError;
use ship::image::remote::{RawRemoteImage, RemoteImage};
use ship::image::tags::TagSet;
use ship::image::Image;

const ID: &str = "sha256:1111111111111111111111111111111111111111111111111111111111111111";
const DIGEST: &str = "sha256:2222222222222222222222222222222222222222222222222222222222222222";

fn raw(containers: &str, digest: &str, id: &str, tag: &str) -> RawLocalImage {
    RawLocalImage {
        containers: containers.to_string(),
        created_at: "2024-01-01".to_string(),
        created_since: "2 days ago".to_string(),
        digest: digest.to_string(),
        id: id.to_string(),
        repository: "myrepo/myapp".to_string(),
        shared_size: "0B".to_string(),
        size: "10MB".to_string(),
        tag: tag.to_string(),
        unique_size: "10MB".to_string(),
    }
}

fn tags(ts: &[&str]) -> TagSet {
    TagSet::from_vec(ts.iter().map(|t| t.to_string()).collect())
}

#[test]
fn converts_a_listing_line() {
    let img = LocalImage::try_from(&raw("3", DIGEST, ID, "latest")).ok().unwrap();
    assert_eq!(img.containers, 3);
    assert_eq!(img.id, [0x11u8; 32]);
    assert_eq!(img.digest, Some([0x22u8; 32]));
    assert_eq!(img.tags.to_vec(), vec!["latest".to_string()]);
    assert_eq!(img.repository, "myrepo/myapp");
    assert_eq!(img.size, "10MB");
}

#[test]
fn a_none_digest_is_no_digest() {
    let img = LocalImage::try_from(&raw("0", "<none>", ID, "v1")).ok().unwrap();
    assert_eq!(img.digest, None);
}

#[test]
fn reports_the_first_field_that_fails() {
    let e = LocalImage::try_from(&raw("x", "bad", "bad", "v1")).err().unwrap();
    assert_eq!(e, ParseImageError::Containers("x".to_string()));
    let e = LocalImage::try_from(&raw("1", "sha256:zz", ID, "v1")).err().unwrap();
    assert_eq!(e, ParseImageError::Digest("sha256:zz".to_string()));
    let e = LocalImage::try_from(&raw("1", "<none>", "sha256:00", "v1")).err().unwrap();
    assert_eq!(e, ParseImageError::Id("sha256:00".to_string()));
}

#[test]
fn parse_error_messages() {
    assert_eq!(ParseImageError::Containers("x".to_string()).message(), "failed parsing \"Containers\" field: x");
    assert_eq!(ParseImageError::Repository("r".to_string()).message(), "failed parsing \"Repository\" field: r");
    assert_eq!(ParseImageError::Id("i".to_string()).message(), "failed parsing \"ID\" field: i");
    assert_eq!(ParseImageError::Digest("d".to_string()).message(), "failed parsing \"Digest\" field: d");
}

#[test]
fn remote_image_from_listing_entry() {
    let r = RemoteImage::try_from(RawRemoteImage { digest: DIGEST.to_string(), tags: tags(&["b", "a"]) })
        .ok()
        .unwrap();
    assert_eq!(r.digest, [0x22u8; 32]);
    assert_eq!(r.tags.to_vec(), vec!["a".to_string(), "b".to_string()]);
    let e = RemoteImage::try_from(RawRemoteImage { digest: "sha256:x1".to_string(), tags: TagSet::new() })
        .err()
        .unwrap();
    assert_eq!(e, ParseImageError::Digest("sha256:x1".to_string()));
}

#[test]
fn remote_image_from_local_needs_a_digest() {
    let with = LocalImage::try_from(&raw("0", DIGEST, ID, "v1")).ok().unwrap();
    let r = RemoteImage::try_from_local(&with).ok().unwrap();
    assert_eq!(r.digest, [0x22u8; 32]);
    assert_eq!(r.tags.to_vec(), vec!["v1".to_string()]);
    let without = LocalImage::try_from(&raw("0", "<none>", ID, "v1")).ok().unwrap();
    let e = RemoteImage::try_from_local(&without).err().unwrap();
    assert_eq!(e, ParseImageError::Digest("<none>".to_string()));
}

#[test]
fn merging_sets_the_digest_and_joins_the_tags() {
    let local = LocalImage::try_from(&raw("0", "<none>", ID, "v1")).ok().unwrap();
    let mut img = Image::Local(local);
    let remote = RemoteImage { digest: [0x33u8; 32], tags: tags(&["latest", "v1"]) };
    remote.merge_with(&mut img);
    match &img {
        Image::Local(l) => {
            assert_eq!(l.digest, Some([0x33u8; 32]));
            assert_eq!(l.tags.to_vec(), vec!["latest".to_string(), "v1".to_string()]);
            assert_eq!(l.id, [0x11u8; 32]);
        },
        Image::Remote(_) => panic!("the image stays local"),
    }
    let mut rimg = Image::Remote(RemoteImage { digest: [0u8; 32], tags: tags(&["x"]) });
    remote.merge_with(&mut rimg);
    match &rimg {
        Image::Remote(r) => {
            assert_eq!(r.digest, [0x33u8; 32]);
            assert_eq!(r.tags.to_vec(), vec!["latest".to_string(), "v1".to_string(), "x".to_string()]);
        },
        Image::Local(_) => panic!("the image stays remote"),
    }
}

#[test]
fn tag_sets_stay_sorted_without_repeats() {
    let mut t = tags(&["b", "a", "b"]);
    assert_eq!(t.to_vec(), vec!["a".to_string(), "b".to_string()]);
    assert!(t.insert("c".to_string()));
    assert!(!t.insert("a".to_string()));
    assert_eq!(t.len(), 3);
    assert!(t.contains("c"));
    assert!(!t.contains("d"));
    let mut u = tags(&["z"]);
    u.merge_from(&t);
    assert_eq!(u.to_vec(), vec!["a".to_string(), "b".to_string(), "c".to_string(), "z".to_string()]);
    assert!(u.is_sorted());
    assert_eq!(TagSet::singleton("q".to_string()).to_vec(), vec!["q".to_string()]);
}
