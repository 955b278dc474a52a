//! Images as the local container engine lists them.

use vstd::prelude::*;
use vstd::utf8::encode_utf8;
use crate::image::prelude::{Digest, Id, ParseImageError, hash_copy};
use crate::image::tags::TagSet;
use crate::text::{parse_u64, parse_u64_spec, same_text};
use crate::utils::{digest_text_panics, parse_prefixed_sha256, sha_parse_result, sha_text_panics, ShaParseError};

verus! {

/// One line of the engine's JSON image listing, all fields as text.
pub struct RawLocalImage {
    pub containers: String,
    pub created_at: String,
    pub created_since: String,
    pub digest: String,
    pub id: String,
    pub repository: String,
    pub shared_size: String,
    pub size: String,
    pub tag: String,
    pub unique_size: String,
}

/// A local image.
pub struct LocalImage {
    pub containers: u64,
    pub digest: Option<Digest>,
    pub id: Id,
    pub tags: TagSet,
    pub created_at: String,
    pub created_since: String,
    pub repository: String,
    pub shared_size: String,
    pub size: String,
    pub unique_size: String,
}

/// The text `<none>` that the engine writes for a missing digest.
pub open spec fn none_marker() -> Seq<char> {
    seq!['<', 'n', 'o', 'n', 'e', '>']
}

/// The digest field read from its text: `<none>` is no digest, anything else a
/// prefixed digest.
pub open spec fn raw_digest_field(d: Seq<char>) -> Result<Option<Seq<u8>>, ShaParseError> {
    if d == none_marker() {
        Ok(None)
    } else {
        match sha_parse_result(encode_utf8(d)) {
            Ok(v) => Ok(Some(v)),
            Err(e) => Err(e),
        }
    }
}

/// Whether reading the digest field would panic.
pub open spec fn raw_digest_panics(d: Seq<char>) -> bool {
    d != none_marker() && sha_text_panics(encode_utf8(d))
}

/// Whether converting `raw` would panic: its fields are read in order, and a
/// panic can only come from a digest or an id that is reached.
pub open spec fn local_image_panics(raw: &RawLocalImage) -> bool {
    parse_u64_spec(raw.containers@) is Some && (raw_digest_panics(raw.digest@) || (
    raw_digest_field(raw.digest@) is Ok && sha_text_panics(encode_utf8(raw.id@))))
}

/// Whether converting `raw` succeeds.
pub open spec fn local_image_parses(raw: &RawLocalImage) -> bool {
    &&& parse_u64_spec(raw.containers@) is Some
    &&& raw_digest_field(raw.digest@) is Ok
    &&& sha_parse_result(encode_utf8(raw.id@)) is Ok
}

/// The error that converting `raw` gives, when it fails.
pub open spec fn local_image_error(raw: &RawLocalImage) -> ParseImageError {
    if parse_u64_spec(raw.containers@) is None {
        ParseImageError::Containers(raw.containers)
    } else if raw_digest_field(raw.digest@) is Err {
        ParseImageError::Digest(raw.digest)
    } else {
        ParseImageError::Id(raw.id)
    }
}

/// `img` is what converting `raw` gives: its fields read, its tag the only tag.
pub open spec fn local_image_from_raw(raw: &RawLocalImage, img: &LocalImage) -> bool {
    &&& Some(img.containers) == parse_u64_spec(raw.containers@)
    &&& match raw_digest_field(raw.digest@) {
        Ok(None) => img.digest is None,
        Ok(Some(v)) => img.digest matches Some(d) && d@ == v,
        Err(_) => false,
    }
    &&& Ok::<Seq<u8>, ShaParseError>(img.id@) == sha_parse_result(encode_utf8(raw.id@))
    &&& img.tags@ == seq![raw.tag@]
    &&& img.created_at == raw.created_at
    &&& img.created_since == raw.created_since
    &&& img.repository == raw.repository
    &&& img.shared_size == raw.shared_size
    &&& img.size == raw.size
    &&& img.unique_size == raw.unique_size
}

/// Reads the digest field.
pub fn parse_digest_field(d: &String) -> (r: Result<Option<Digest>, ShaParseError>)
    requires
        !raw_digest_panics(d@),
    ensures
        match raw_digest_field(d@) {
            Ok(None) => r matches Ok(None),
            Ok(Some(v)) => r matches Ok(Some(x)) && x@ == v,
            Err(e) => r == Err::<Option<Digest>, ShaParseError>(e),
        },
{
    if same_text(d.as_str(), "<none>") {
        proof {
            reveal_strlit("<none>");
            assert(d@ =~= none_marker());
        }
        Ok(None)
    } else {
        proof {
            reveal_strlit("<none>");
            assert(d@ != none_marker()) by {
                if d@ == none_marker() {
                    assert(d@ =~= "<none>"@);
                }
            }
        }
        match parse_prefixed_sha256(d.as_str()) {
            Ok(x) => Ok(Some(x)),
            Err(e) => Err(e),
        }
    }
}

/// Whether reading digest field `d` would panic: it is not `<none>` and its
/// text cuts a group.
pub fn digest_field_panics(d: &String) -> (b: bool)
    ensures
        b == raw_digest_panics(d@),
{
    proof {
        reveal_strlit("<none>");
    }
    if same_text(d.as_str(), "<none>") {
        assert(d@ =~= none_marker());
        false
    } else {
        assert(d@ != none_marker()) by {
            if d@ == none_marker() {
                assert(d@ =~= "<none>"@);
            }
        }
        digest_text_panics(d.as_str())
    }
}

impl LocalImage {
    /// Whether converting `raw` would panic, the inputs `try_from` does not
    /// take.
    pub fn conversion_panics(raw: &RawLocalImage) -> (b: bool)
        ensures
            b == local_image_panics(raw),
    {
        match parse_u64(raw.containers.as_str()) {
            None => false,
            Some(_) => {
                if digest_field_panics(&raw.digest) {
                    true
                } else {
                    match parse_digest_field(&raw.digest) {
                        Err(_) => false,
                        Ok(_) => digest_text_panics(raw.id.as_str()),
                    }
                }
            },
        }
    }

    /// Converts a listing line: `Containers` as a `u64`, `Digest` as `<none>`
    /// or a prefixed digest, `ID` as a prefixed digest, in that order; the first
    /// field that fails names the error. The line's tag becomes the only tag.
    pub fn try_from(raw: &RawLocalImage) -> (r: Result<LocalImage, ParseImageError>)
        requires
            !local_image_panics(raw),
        ensures
            r is Ok <==> local_image_parses(raw),
            r matches Ok(img) ==> local_image_from_raw(raw, &img),
            r matches Err(e) ==> e == local_image_error(raw),
    {
        let containers = match parse_u64(raw.containers.as_str()) {
            Some(c) => c,
            None => {
                return Err(ParseImageError::Containers(raw.containers.clone()));
            },
        };
        let digest = match parse_digest_field(&raw.digest) {
            Ok(d) => d,
            Err(_) => {
                return Err(ParseImageError::Digest(raw.digest.clone()));
            },
        };
        let id = match parse_prefixed_sha256(raw.id.as_str()) {
            Ok(i) => i,
            Err(_) => {
                return Err(ParseImageError::Id(raw.id.clone()));
            },
        };
        Ok(LocalImage {
            containers,
            digest,
            id,
            tags: TagSet::singleton(raw.tag.clone()),
            created_at: raw.created_at.clone(),
            created_since: raw.created_since.clone(),
            repository: raw.repository.clone(),
            shared_size: raw.shared_size.clone(),
            size: raw.size.clone(),
            unique_size: raw.unique_size.clone(),
        })
    }

    /// A copy of the image.
    pub fn duplicate(&self) -> (r: LocalImage)
        ensures
            r.containers == self.containers,
            r.digest == self.digest,
            r.id == self.id,
            r.tags@ == self.tags@,
            r.created_at == self.created_at,
            r.created_since == self.created_since,
            r.repository == self.repository,
            r.shared_size == self.shared_size,
            r.size == self.size,
            r.unique_size == self.unique_size,
    {
        LocalImage {
            containers: self.containers,
            digest: match &self.digest {
                Some(d) => Some(hash_copy(d)),
                None => None,
            },
            id: hash_copy(&self.id),
            tags: self.tags.duplicate(),
            created_at: self.created_at.clone(),
            created_since: self.created_since.clone(),
            repository: self.repository.clone(),
            shared_size: self.shared_size.clone(),
            size: self.size.clone(),
            unique_size: self.unique_size.clone(),
        }
    }
}

} // verus!
