//! Images as a registry lists them, and the merging of remote information into
//! listed images.

use vstd::prelude::*;
use vstd::utf8::encode_utf8;
use crate::image::Image;
use crate::image::local::LocalImage;
use crate::image::prelude::{Digest, ParseImageError, hash_copy};
use crate::image::tags::{TagSet, sorted_texts};
use crate::utils::{parse_prefixed_sha256, sha_parse_result, sha_text_panics};

verus! {

/// An image in a registry: its digest and its tags.
pub struct RemoteImage {
    pub digest: Digest,
    pub tags: TagSet,
}

/// One entry of a registry's image listing, the digest as text.
pub struct RawRemoteImage {
    pub digest: String,
    pub tags: TagSet,
}

/// The digest of an image, if it has one.
pub open spec fn image_digest(img: Image) -> Option<Seq<u8>> {
    match img {
        Image::Local(l) => match l.digest {
            Some(d) => Some(d@),
            None => None,
        },
        Image::Remote(r) => Some(r.digest@),
    }
}

/// The tags of an image.
pub open spec fn image_tags(img: Image) -> Seq<Seq<char>> {
    match img {
        Image::Local(l) => l.tags@,
        Image::Remote(r) => r.tags@,
    }
}

/// The fields of a local image other than its digest and tags.
pub open spec fn same_local_details(a: LocalImage, b: LocalImage) -> bool {
    &&& a.containers == b.containers
    &&& a.id == b.id
    &&& a.created_at == b.created_at
    &&& a.created_since == b.created_since
    &&& a.repository == b.repository
    &&& a.shared_size == b.shared_size
    &&& a.size == b.size
    &&& a.unique_size == b.unique_size
}

/// `new` is `old` after merging a remote image with digest `digest` and tags
/// `tags`: same kind, the digest set, the tags joined, all else kept.
pub open spec fn merged_image(old: Image, new: Image, digest: Seq<u8>, tags: Seq<Seq<char>>) -> bool {
    &&& image_digest(new) == Some(digest)
    &&& forall|t: Seq<char>| #[trigger] image_tags(new).contains(t) <==> (image_tags(old).contains(t) || tags.contains(t))
    &&& sorted_texts(image_tags(new))
    &&& match (old, new) {
        (Image::Local(o), Image::Local(n)) => same_local_details(o, n),
        (Image::Remote(_), Image::Remote(_)) => true,
        _ => false,
    }
}

impl RemoteImage {
    /// Converts a registry listing entry; fails with the digest's text when the
    /// digest does not parse.
    pub fn try_from(raw: RawRemoteImage) -> (r: Result<RemoteImage, ParseImageError>)
        requires
            !sha_text_panics(encode_utf8(raw.digest@)),
        ensures
            r is Ok <==> sha_parse_result(encode_utf8(raw.digest@)) is Ok,
            r matches Ok(img) ==> sha_parse_result(encode_utf8(raw.digest@)) == Ok::<
                Seq<u8>,
                crate::utils::ShaParseError,
            >(img.digest@) && img.tags@ == raw.tags@,
            r matches Err(e) ==> e == ParseImageError::Digest(raw.digest),
    {
        match parse_prefixed_sha256(raw.digest.as_str()) {
            Ok(d) => Ok(RemoteImage { digest: d, tags: raw.tags }),
            Err(_) => Err(ParseImageError::Digest(raw.digest)),
        }
    }

    /// The remote counterpart of a local image: its digest and tags; fails with
    /// `<none>` when the image has no digest.
    pub fn try_from_local(image: &LocalImage) -> (r: Result<RemoteImage, ParseImageError>)
        ensures
            r is Ok <==> image.digest is Some,
            r matches Ok(img) ==> (image.digest matches Some(d) && img.digest@ == d@) && img.tags@ == image.tags@,
            r matches Err(e) ==> e matches ParseImageError::Digest(s) && s@ == crate::image::local::none_marker(),
    {
        match &image.digest {
            Some(d) => Ok(RemoteImage { digest: hash_copy(d), tags: image.tags.duplicate() }),
            None => {
                let s = String::from_str("<none>");
                proof {
                    reveal_strlit("<none>");
                    assert(s@ =~= crate::image::local::none_marker());
                }
                Err(ParseImageError::Digest(s))
            },
        }
    }

    /// Records this remote image in `img`: sets its digest and adds its tags,
    /// leaving the kind of `img` and its other fields as they were.
    pub fn merge_with(&self, img: &mut Image)
        ensures
            merged_image(*old(img), *final(img), self.digest@, self.tags@),
    {
        match img {
            Image::Local(l) => {
                l.digest = Some(hash_copy(&self.digest));
                l.tags.merge_from(&self.tags);
            },
            Image::Remote(r) => {
                r.digest = hash_copy(&self.digest);
                r.tags.merge_from(&self.tags);
            },
        }
    }

    /// A copy of the image.
    pub fn duplicate(&self) -> (r: RemoteImage)
        ensures
            r.digest == self.digest,
            r.tags@ == self.tags@,
    {
        RemoteImage { digest: hash_copy(&self.digest), tags: self.tags.duplicate() }
    }
}

} // verus!
