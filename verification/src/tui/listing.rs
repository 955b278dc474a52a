//! Building the list of local images from the engine's listing, one line at a
//! time: lines of an image already listed add a tag (and a digest the image
//! lacks); other lines add an image, kept in order of id.

use vstd::prelude::*;
use vstd::utf8::{decode_utf8, encode_utf8, valid_utf8};
use crate::tui::external_command::string_from_utf8;
use crate::image::local::{LocalImage, RawLocalImage, digest_field_panics, local_image_error, local_image_from_raw, local_image_panics, local_image_parses, none_marker, raw_digest_field, raw_digest_panics, parse_digest_field};
use crate::image::prelude::{ParseImageError, bytes_lt, hash_eq, hash_lt, lemma_bytes_lt_irreflexive, lemma_bytes_lt_total, lemma_bytes_lt_transitive};
use crate::image::remote::same_local_details;
use crate::image::tags::sorted_texts;
use crate::search::{first_match, lemma_first_match};
use crate::tui::state::AppState;
use crate::utils::{digest_text_panics, parse_prefixed_sha256, sha_parse_result, sha_text_panics, ShaParseError};

verus! {

/// Why a listing could not be read.
#[derive(Debug, PartialEq, Eq)]
pub enum ListImagesError {
    /// A line's `ID` is not a prefixed digest; holds the text.
    Id(String),
    /// A line's `Digest` is not a prefixed digest; holds the text and why
    /// it does not read.
    Digest(String, ShaParseError),
    /// A line of a new image does not convert.
    Image(ParseImageError),
}

/// The text of a listing error.
pub open spec fn list_images_error_text(e: ListImagesError) -> Seq<char> {
    match e {
        ListImagesError::Id(_) => "Failed to parse image id"@,
        ListImagesError::Digest(_, ShaParseError::InvalidDigit) => "invalid digit found in string"@,
        ListImagesError::Digest(_, ShaParseError::WrongLength) => "failed parsing sha256"@,
        ListImagesError::Image(_) => "Failed to parse image"@,
    }
}

impl ListImagesError {
    /// What the error says.
    pub fn message(&self) -> (m: String)
        ensures
            m@ == list_images_error_text(*self),
    {
        match self {
            ListImagesError::Id(_) => "Failed to parse image id".to_owned(),
            ListImagesError::Digest(_, ShaParseError::InvalidDigit) => "invalid digit found in string".to_owned(),
            ListImagesError::Digest(_, ShaParseError::WrongLength) => "failed parsing sha256".to_owned(),
            ListImagesError::Image(_) => "Failed to parse image".to_owned(),
        }
    }
}

/// Why the engine's listing output could not be read.
#[derive(Debug, Clone, Copy, PartialEq, Eq, Structural)]
pub enum ListingOutputError {
    /// The listing failed and its error stream is not UTF-8 text.
    Stderr,
    /// Its output stream is not UTF-8 text.
    Stdout,
}

impl ListingOutputError {
    /// What the error says.
    pub fn message(&self) -> (m: String)
        ensures
            m@ == match *self {
                ListingOutputError::Stderr => "Failed parsing stderr"@,
                ListingOutputError::Stdout => "Failed parsing stdout"@,
            },
    {
        match self {
            ListingOutputError::Stderr => "Failed parsing stderr".to_owned(),
            ListingOutputError::Stdout => "Failed parsing stdout".to_owned(),
        }
    }
}

/// The text of the engine's image listing, from how the listing command
/// ended: a failed listing only has its error stream checked to be text;
/// the output stream is then read as text.
pub fn listing_output(success: bool, stdout: Vec<u8>, stderr: Vec<u8>) -> (r: Result<String, ListingOutputError>)
    ensures
        !success && !valid_utf8(stderr@) ==> r == Err::<String, ListingOutputError>(ListingOutputError::Stderr),
        (success || valid_utf8(stderr@)) && valid_utf8(stdout@) ==> (r matches Ok(out) && out@ == decode_utf8(
            stdout@,
        )),
        (success || valid_utf8(stderr@)) && !valid_utf8(stdout@) ==> r == Err::<String, ListingOutputError>(
            ListingOutputError::Stdout,
        ),
{
    if !success {
        if string_from_utf8(stderr).is_err() {
            return Err(ListingOutputError::Stderr);
        }
    }
    match string_from_utf8(stdout) {
        Ok(out) => Ok(out),
        Err(_) => Err(ListingOutputError::Stdout),
    }
}

/// The images are in strictly increasing order of id.
pub open spec fn ids_sorted(imgs: Seq<LocalImage>) -> bool {
    forall|i: int, j: int| 0 <= i < j < imgs.len() ==> bytes_lt(#[trigger] imgs[i].id@, #[trigger] imgs[j].id@)
}

/// The condition that picks the image with id `id`.
pub open spec fn id_is(id: Seq<u8>) -> spec_fn(LocalImage) -> bool {
    |l: LocalImage| l.id@ == id
}

/// The condition that picks images whose id comes after `id`.
pub open spec fn id_after(id: Seq<u8>) -> spec_fn(LocalImage) -> bool {
    |l: LocalImage| bytes_lt(id, l.id@)
}

/// Whether adding listing line `raw` to `imgs` would panic.
pub open spec fn listed_image_panics(imgs: Seq<LocalImage>, raw: RawLocalImage) -> bool {
    ||| sha_text_panics(encode_utf8(raw.id@))
    ||| match sha_parse_result(encode_utf8(raw.id@)) {
        Ok(id) => {
            let k = first_match(imgs, id_is(id));
            if k < imgs.len() {
                imgs[k].digest is None && raw_digest_panics(raw.digest@)
            } else {
                local_image_panics(&raw)
            }
        },
        Err(_) => false,
    }
}

/// `new` is image `old` with the tag `tag` added and, when it had none and
/// `digest` is given, that digest.
pub open spec fn image_extended(old: LocalImage, new: LocalImage, tag: Seq<char>, digest: Option<Seq<u8>>) -> bool {
    &&& same_local_details(old, new)
    &&& forall|t: Seq<char>| #[trigger] new.tags@.contains(t) <==> (old.tags@.contains(t) || t == tag)
    &&& sorted_texts(new.tags@)
    &&& match (old.digest, digest) {
        (None, Some(d)) => new.digest matches Some(x) && x@ == d,
        _ => new.digest == old.digest,
    }
}

/// The outcome of adding listing line `raw` to `old`: `Ok(new)` with the new
/// list, or `Err(e)`.
pub open spec fn listed_step(old: Seq<LocalImage>, raw: RawLocalImage, r: Result<Seq<LocalImage>, ListImagesError>) -> bool {
    match sha_parse_result(encode_utf8(raw.id@)) {
        Err(_) => r == Err::<Seq<LocalImage>, ListImagesError>(ListImagesError::Id(raw.id)),
        Ok(id) => {
            let k = first_match(old, id_is(id));
            if k < old.len() {
                let fill = old[k].digest is None && raw.digest@ != none_marker();
                if fill && raw_digest_field(raw.digest@) is Err {
                    r == Err::<Seq<LocalImage>, ListImagesError>(
                        ListImagesError::Digest(raw.digest, raw_digest_field(raw.digest@)->Err_0),
                    )
                } else {
                    let digest = if fill {
                        raw_digest_field(raw.digest@)->Ok_0
                    } else {
                        None
                    };
                    r matches Ok(new) && new.len() == old.len() && image_extended(old[k], new[k], raw.tag@, digest)
                        && forall|j: int| 0 <= j < old.len() && j != k ==> new[j] == old[j]
                }
            } else if local_image_parses(&raw) {
                let p = first_match(old, id_after(id));
                r matches Ok(new) && new.len() == old.len() + 1 && local_image_from_raw(&raw, &new[p])
                    && new == old.insert(p, new[p])
            } else {
                r == Err::<Seq<LocalImage>, ListImagesError>(ListImagesError::Image(local_image_error(&raw)))
            }
        },
    }
}

/// `states` are the lists after each of the lines `raws`, starting from an
/// empty list, every line added successfully.
pub open spec fn listing_trace(raws: Seq<RawLocalImage>, states: Seq<Seq<LocalImage>>) -> bool {
    &&& states.len() == raws.len() + 1
    &&& states[0] == Seq::<LocalImage>::empty()
    &&& forall|i: int| 0 <= i < raws.len() ==> listed_step(#[trigger] states[i], raws[i], Ok(states[i + 1]))
}

/// No line of `raws` that is reached makes the listing panic.
pub open spec fn listing_never_panics(raws: Seq<RawLocalImage>) -> bool {
    forall|i: int, states: Seq<Seq<LocalImage>>|
        0 <= i < raws.len() && #[trigger] listing_trace(raws.subrange(0, i), states) ==> !listed_image_panics(
            states.last(),
            raws[i],
        )
}

/// A first image with the given id in an id-sorted list is its only one.
proof fn lemma_sorted_unique(imgs: Seq<LocalImage>, k: int)
    requires
        ids_sorted(imgs),
        0 <= k < imgs.len(),
    ensures
        forall|j: int| 0 <= j < imgs.len() && j != k ==> imgs[j].id@ != imgs[k].id@,
{
    assert forall|j: int| 0 <= j < imgs.len() && j != k implies imgs[j].id@ != imgs[k].id@ by {
        lemma_bytes_lt_irreflexive(imgs[k].id@);
        if j < k {
            assert(bytes_lt(imgs[j].id@, imgs[k].id@));
        } else {
            assert(bytes_lt(imgs[k].id@, imgs[j].id@));
        }
    }
}

impl AppState {
    /// Adds one line of the engine's listing to `images` (sorted by id): a
    /// line whose id is already listed adds its tag, and its digest when the
    /// image has none yet; another line adds a new image at its place in the
    /// order of ids. On failure `images` is left as it was.
    pub fn add_listed_image(images: &mut Vec<LocalImage>, raw: &RawLocalImage) -> (r: Result<(), ListImagesError>)
        requires
            ids_sorted(old(images)@),
            !listed_image_panics(old(images)@, *raw),
        ensures
            listed_step(
                old(images)@,
                *raw,
                match r {
                    Ok(_) => Ok(final(images)@),
                    Err(e) => Err(e),
                },
            ),
            r is Ok ==> ids_sorted(final(images)@),
            r is Err ==> final(images)@ == old(images)@,
    {
        let id = match parse_prefixed_sha256(raw.id.as_str()) {
            Ok(id) => id,
            Err(_) => {
                return Err(ListImagesError::Id(raw.id.clone()));
            },
        };
        let ghost s = images@;
        let mut k: usize = 0;
        while k < images.len() && !hash_eq(&images[k].id, &id)
            invariant
                k <= images@.len(),
                s == images@,
                forall|j: int| 0 <= j < k ==> !id_is(id@)(#[trigger] images@[j]),
            decreases images.len() - k,
        {
            k = k + 1;
        }
        proof {
            lemma_first_match(s, id_is(id@), k as int);
        }
        if k < images.len() {
            let fill = images[k].digest.is_none() && !crate::text::same_text(raw.digest.as_str(), "<none>");
            proof {
                reveal_strlit("<none>");
                if raw.digest@ == none_marker() {
                    assert(raw.digest@ =~= "<none>"@);
                }
                if raw.digest@ =~= "<none>"@ {
                    assert(raw.digest@ == none_marker());
                }
            }
            let mut digest = None;
            if fill {
                match parse_digest_field(&raw.digest) {
                    Ok(d) => {
                        digest = d;
                    },
                    Err(e) => {
                        return Err(ListImagesError::Digest(raw.digest.clone(), e));
                    },
                }
            }
            let mut img = images.remove(k);
            img.tags.insert(raw.tag.clone());
            if fill {
                img.digest = digest;
            }
            let ghost iv = img;
            images.insert(k, img);
            proof {
                assert(images@[k as int] == iv);
                assert forall|j: int| 0 <= j < s.len() && j != k implies images@[j] == s[j] by {}
                assert forall|a: int, b: int| 0 <= a < b < images@.len() implies bytes_lt(#[trigger] images@[a].id@, #[trigger] images@[b].id@) by {
                    assert(images@[a].id == s[a].id);
                    assert(images@[b].id == s[b].id);
                }
            }
            Ok(())
        } else {
            let parsed = match LocalImage::try_from(raw) {
                Ok(p) => p,
                Err(e) => {
                    return Err(ListImagesError::Image(e));
                },
            };
            proof {
                assert(parsed.id@ == id@);
            }
            let mut lo: usize = 0;
            let mut hi: usize = images.len();
            while lo < hi
                invariant
                    lo <= hi <= images@.len(),
                    s == images@,
                    ids_sorted(s),
                    forall|j: int| 0 <= j < s.len() ==> (#[trigger] s[j]).id@ != id@,
                    forall|j: int| 0 <= j < lo ==> !id_after(id@)(#[trigger] s[j]),
                    forall|j: int| hi <= j < s.len() ==> id_after(id@)(#[trigger] s[j]),
                decreases hi - lo,
            {
                let mid = lo + (hi - lo) / 2;
                if hash_lt(&images[mid].id, &id) {
                    proof {
                        assert forall|j: int| 0 <= j < mid + 1 implies !id_after(id@)(#[trigger] s[j]) by {
                            lemma_bytes_lt_irreflexive(id@);
                            if j < mid {
                                assert(bytes_lt(s[j].id@, s[mid as int].id@));
                                lemma_bytes_lt_transitive(s[j].id@, s[mid as int].id@, id@);
                                if bytes_lt(id@, s[j].id@) {
                                    lemma_bytes_lt_transitive(id@, s[j].id@, id@);
                                }
                            } else {
                                if bytes_lt(id@, s[j].id@) {
                                    lemma_bytes_lt_transitive(id@, s[j].id@, id@);
                                }
                            }
                        }
                    }
                    lo = mid + 1;
                } else {
                    proof {
                        lemma_bytes_lt_total(s[mid as int].id@, id@);
                        assert forall|j: int| mid <= j < s.len() implies id_after(id@)(#[trigger] s[j]) by {
                            if j > mid {
                                assert(bytes_lt(s[mid as int].id@, s[j].id@));
                                lemma_bytes_lt_transitive(id@, s[mid as int].id@, s[j].id@);
                            }
                        }
                    }
                    hi = mid;
                }
            }
            proof {
                lemma_first_match(s, id_after(id@), lo as int);
            }
            let ghost pv = parsed;
            images.insert(lo, parsed);
            proof {
                assert(images@ == s.insert(lo as int, pv));
                assert(images@[lo as int] == pv);
                assert forall|a: int, b: int| 0 <= a < b < images@.len() implies bytes_lt(#[trigger] images@[a].id@, #[trigger] images@[b].id@) by {
                    if b < lo {
                        assert(images@[a] == s[a] && images@[b] == s[b]);
                    } else if b == lo {
                        assert(images@[a] == s[a]);
                        assert(!id_after(id@)(s[a]));
                        lemma_bytes_lt_total(s[a].id@, id@);
                    } else if a < lo {
                        assert(images@[a] == s[a] && images@[b] == s[b - 1]);
                        assert(!id_after(id@)(s[a]));
                        lemma_bytes_lt_total(s[a].id@, id@);
                        lemma_bytes_lt_transitive(s[a].id@, id@, s[b - 1].id@);
                    } else if a == lo {
                        assert(images@[b] == s[b - 1]);
                    } else {
                        assert(images@[a] == s[a - 1] && images@[b] == s[b - 1]);
                    }
                }
            }
            Ok(())
        }
    }

    /// Whether adding listing line `raw` to `images` would panic, the inputs
    /// `add_listed_image` does not take.
    pub fn listing_line_panics(images: &Vec<LocalImage>, raw: &RawLocalImage) -> (b: bool)
        ensures
            b == listed_image_panics(images@, *raw),
    {
        if digest_text_panics(raw.id.as_str()) {
            return true;
        }
        let id = match parse_prefixed_sha256(raw.id.as_str()) {
            Ok(id) => id,
            Err(_) => {
                return false;
            },
        };
        let mut k: usize = 0;
        while k < images.len() && !hash_eq(&images[k].id, &id)
            invariant
                k <= images@.len(),
                forall|j: int| 0 <= j < k ==> !id_is(id@)(#[trigger] images@[j]),
            decreases images.len() - k,
        {
            k = k + 1;
        }
        proof {
            lemma_first_match(images@, id_is(id@), k as int);
        }
        if k < images.len() {
            images[k].digest.is_none() && digest_field_panics(&raw.digest)
        } else {
            LocalImage::conversion_panics(raw)
        }
    }

    /// Reads a whole listing, line by line; the first line that fails ends
    /// the reading with its error. `None` when a line reached would make
    /// the reading panic.
    pub fn list_images_checked(raws: &Vec<RawLocalImage>) -> (r: Option<Result<Vec<LocalImage>, ListImagesError>>)
        ensures
            r matches Some(Ok(v)) ==> ids_sorted(v@) && exists|states: Seq<Seq<LocalImage>>|
                #[trigger] listing_trace(raws@, states) && states.last() == v@,
            r matches Some(Err(e)) ==> exists|i: int, states: Seq<Seq<LocalImage>>|
                0 <= i < raws@.len() && #[trigger] listing_trace(raws@.subrange(0, i), states)
                    && listed_step(states.last(), raws@[i], Err(e)),
            r is None ==> !listing_never_panics(raws@),
    {
        let mut images: Vec<LocalImage> = Vec::new();
        let ghost mut states: Seq<Seq<LocalImage>> = seq![Seq::<LocalImage>::empty()];
        let mut i: usize = 0;
        while i < raws.len()
            invariant
                i <= raws@.len(),
                listing_trace(raws@.subrange(0, i as int), states),
                states.last() == images@,
                ids_sorted(images@),
            decreases raws.len() - i,
        {
            if AppState::listing_line_panics(&images, &raws[i]) {
                assert(listed_image_panics(states.last(), raws@[i as int]));
                return None;
            }
            let ghost before = images@;
            match AppState::add_listed_image(&mut images, &raws[i]) {
                Ok(_) => {
                    proof {
                        let prev = states;
                        states = states.push(images@);
                        let pre = raws@.subrange(0, i + 1);
                        assert forall|j: int| 0 <= j < pre.len() implies listed_step(#[trigger] states[j], pre[j], Ok(states[j + 1])) by {
                            if j < i {
                                assert(states[j] == prev[j]);
                                assert(states[j + 1] == prev[j + 1]);
                                assert(pre[j] == raws@.subrange(0, i as int)[j]);
                            } else {
                                assert(states[j] == before);
                            }
                        }
                    }
                },
                Err(e) => {
                    return Some(Err(e));
                },
            }
            i = i + 1;
        }
        assert(raws@.subrange(0, raws@.len() as int) =~= raws@);
        Some(Ok(images))
    }

    /// Reads a whole listing, line by line; the first line that fails ends
    /// the reading with its error.
    pub fn list_images(raws: &Vec<RawLocalImage>) -> (r: Result<Vec<LocalImage>, ListImagesError>)
        requires
            listing_never_panics(raws@),
        ensures
            r matches Ok(v) ==> ids_sorted(v@) && exists|states: Seq<Seq<LocalImage>>|
                #[trigger] listing_trace(raws@, states) && states.last() == v@,
            r matches Err(e) ==> exists|i: int, states: Seq<Seq<LocalImage>>|
                0 <= i < raws@.len() && #[trigger] listing_trace(raws@.subrange(0, i), states)
                    && listed_step(states.last(), raws@[i], Err(e)),
    {
        match AppState::list_images_checked(raws) {
            Some(r) => r,
            None => {
                assert(false);
                Ok(Vec::new())
            },
        }
    }
}

} // verus!
