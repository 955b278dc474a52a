use ship::relation::{project_url, push, tag_urls};
use ship::image::local::LocalImage;
use ship::image::tags::TagSet;
use ship::utils::{digest_text_panics, parse_prefixed_sha256, ShaParseError};

const HEX: &str = "0123456789abcdef00112233445566778899aabbccddeeff0f1e2d3c4b5a6978";

fn digest_bytes() -> [u8; 32] {
    let mut d = [0u8; 32];
    for i in 0..32 {
        d[i] = u8::from_str_radix(&HEX[2 * i..2 * i + 2], 16).unwrap();
    }
    d
}

fn local_image(repository: &str, tags: &[&str]) -> LocalImage {
    LocalImage {
        containers: 0,
        digest: None,
        id: digest_bytes(),
        tags: TagSet::from_vec(tags.iter().map(|t| t.to_string()).collect()),
        created_at: String::new(),
        created_since: String::new(),
        repository: repository.to_string(),
        shared_size: String::new(),
        size: String::new(),
        unique_size: String::new(),
    }
}

#[test]
fn parses_a_prefixed_digest() {
    let text = format!("sha256:{HEX}");
    assert_eq!(parse_prefixed_sha256(&text), Ok(digest_bytes()));
}

#[test]
fn parses_upper_case_digits_too() {
    let text = format!("sha256:{}", HEX.to_uppercase());
    assert_eq!(parse_prefixed_sha256(&text), Ok(digest_bytes()));
}

#[test]
fn rejects_a_bad_digit() {
    let text = format!("sha256:zz{}", &HEX[2..]);
    assert_eq!(parse_prefixed_sha256(&text), Err(ShaParseError::InvalidDigit));
}

#[test]
fn rejects_a_short_or_long_digest() {
    assert_eq!(parse_prefixed_sha256("sha256:0011"), Err(ShaParseError::WrongLength));
    assert_eq!(parse_prefixed_sha256("sha256:"), Err(ShaParseError::WrongLength));
    assert_eq!(parse_prefixed_sha256("abc"), Err(ShaParseError::WrongLength));
    let text = format!("sha256:{HEX}00");
    assert_eq!(parse_prefixed_sha256(&text), Err(ShaParseError::WrongLength));
}

#[test]
fn finds_the_digest_texts_that_cannot_be_read() {
    assert!(digest_text_panics("sha256:abc"));
    assert!(digest_text_panics("sha256:0\u{e9}0"));
    assert!(!digest_text_panics("sha256:\u{e9}00"));
    assert!(!digest_text_panics("sha256:abcd"));
    assert!(!digest_text_panics("sha256:zz0"));
    assert!(!digest_text_panics(&format!("sha256:{HEX}")));
}

#[test]
fn push_targets_use_the_hex_id_and_project_of_the_repository() {
    let img = local_image("myrepo/myapp", &["v1", "latest"]);
    let (id, urls) = push(&img, "registry.example.com/team").ok().unwrap();
    assert_eq!(id, HEX);
    assert_eq!(
        urls,
        vec![
            "registry.example.com/team/myapp:latest".to_string(),
            "registry.example.com/team/myapp:v1".to_string(),
        ]
    );
    let back = parse_prefixed_sha256(&format!("sha256:{id}"));
    assert_eq!(back, Ok(img.id));
}

#[test]
fn project_and_tag_references() {
    assert_eq!(project_url("reg.io", "app"), "reg.io/app");
    let tags = TagSet::from_vec(vec!["b".to_string(), "a".to_string()]);
    assert_eq!(tag_urls("reg.io/app", &tags), vec!["reg.io/app:a".to_string(), "reg.io/app:b".to_string()]);
}

#[test]
fn upper_case_hex_of_a_digest_reads_back() {
    let img = local_image("a/b", &[]);
    let (id, _) = push(&img, "r").ok().unwrap();
    assert_eq!(parse_prefixed_sha256(&format!("sha256:{}", id.to_uppercase())), Ok(img.id));
}
