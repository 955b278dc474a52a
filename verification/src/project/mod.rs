//! Projects: the images of one repository name, local and remote.

use vstd::prelude::*;
use crate::image::Image;
use crate::image::local::LocalImage;
use crate::image::prelude::{Id, hash_eq};
use crate::image::remote::{RemoteImage, image_digest, image_tags, merged_image, same_local_details};
use crate::image::tags::sorted_texts;
use crate::search::{first_match, lemma_first_match};

verus! {

/// A group of related images, named after the last segment of their
/// repository (`myrepo/myapp` belongs to project `myapp`).
pub struct Project {
    pub name: String,
    pub images: Vec<Image>,
}

/// Why a project lookup failed.
#[derive(Debug, Clone, Copy, PartialEq, Eq, Structural)]
pub enum ProjectError {
    /// The repository text has no last segment.
    NoProjectName,
    /// No local image has the id.
    ImageNotFound,
    /// The image found is not a local one.
    NotLocal,
}

/// The last `/`-separated segment of a repository name.
pub open spec fn is_last_segment(repository: Seq<char>, name: Seq<char>) -> bool {
    let cut = repository.len() - name.len();
    &&& 0 <= cut
    &&& repository.subrange(cut, repository.len() as int) == name
    &&& !name.contains('/')
    &&& (cut == 0 || repository[cut - 1] == '/')
}

/// `img` is a local image with identifier `id`.
pub open spec fn is_local_with_id(img: Image, id: Seq<u8>) -> bool {
    img matches Image::Local(l) && l.id@ == id
}

/// The condition that picks the image with identifier `id`.
pub open spec fn local_id_is(id: Seq<u8>) -> spec_fn(Image) -> bool {
    |img: Image| is_local_with_id(img, id)
}

/// The condition that picks an image carrying digest `d`.
pub open spec fn digest_is(d: Seq<u8>) -> spec_fn(Image) -> bool {
    |img: Image| image_digest(img) == Some(d)
}

/// Whether image `img` carries the digest `d` (by value).
pub fn image_has_digest(img: &Image, d: &[u8; 32]) -> (r: bool)
    ensures
        r == (image_digest(*img) == Some(d@)),
{
    match img {
        Image::Local(l) => match &l.digest {
            Some(x) => hash_eq(x, d),
            None => false,
        },
        Image::Remote(r) => hash_eq(&r.digest, d),
    }
}

/// The last `/`-separated segment of `s` (all of `s` when it has no `/`).
pub open spec fn last_segment(s: Seq<char>) -> Seq<char>
    decreases s.len(),
{
    if s.len() == 0 {
        s
    } else if s.last() == '/' {
        Seq::empty()
    } else {
        last_segment(s.drop_last()).push(s.last())
    }
}

/// `last_segment` is the last segment.
pub proof fn lemma_last_segment(s: Seq<char>)
    ensures
        is_last_segment(s, last_segment(s)),
    decreases s.len(),
{
    if s.len() > 0 && s.last() != '/' {
        let p = s.drop_last();
        lemma_last_segment(p);
        let n = last_segment(s);
        let cut = s.len() - n.len();
        assert(s.subrange(cut, s.len() as int) =~= p.subrange(cut, p.len() as int).push(s.last()));
        assert forall|j: int| 0 <= j < n.len() implies n[j] != '/' by {
            if j < n.len() - 1 {
                assert(n[j] == last_segment(p)[j]);
            }
        }
        if cut > 0 {
            assert(s[cut - 1] == p[cut - 1]);
        }
    } else if s.len() > 0 {
        assert(s.subrange(s.len() as int, s.len() as int) =~= Seq::<char>::empty());
    } else {
        assert(s.subrange(0, 0) =~= s);
    }
}

/// A repository has only one last segment.
pub proof fn lemma_last_segment_unique(s: Seq<char>, n: Seq<char>)
    requires
        is_last_segment(s, n),
    ensures
        n == last_segment(s),
{
    lemma_last_segment(s);
    let m = last_segment(s);
    let cn = s.len() - n.len();
    let cm = s.len() - m.len();
    if cn < cm {
        assert(n.subrange(0, 0).len() == 0);
        let j = cm - 1 - cn;
        assert(n[j] == s[cm - 1]) by {
            assert(s.subrange(cn, s.len() as int)[j] == s[cn + j]);
        }
        assert(false);
    }
    if cm < cn {
        let j = cn - 1 - cm;
        assert(m[j] == s[cn - 1]) by {
            assert(s.subrange(cm, s.len() as int)[j] == s[cm + j]);
        }
        assert(false);
    }
}

/// `new_imgs` is `old_imgs` after recording remote image `r`: merged into the
/// first image carrying its digest, or added as a remote image when none does.
pub open spec fn merge_step(old_imgs: Seq<Image>, new_imgs: Seq<Image>, r: RemoteImage) -> bool {
    let k = first_match(old_imgs, digest_is(r.digest@));
    if k < old_imgs.len() {
        &&& new_imgs.len() == old_imgs.len()
        &&& merged_image(old_imgs[k], new_imgs[k], r.digest@, r.tags@)
        &&& forall|j: int| 0 <= j < old_imgs.len() && j != k ==> new_imgs[j] == old_imgs[j]
    } else {
        &&& new_imgs.len() == old_imgs.len() + 1
        &&& new_imgs.subrange(0, old_imgs.len() as int) == old_imgs
        &&& new_imgs.last() matches Image::Remote(x) && x.digest@ == r.digest@ && x.tags@ == r.tags@
    }
}

/// `b` holds what `a` holds: same kind, digest, tags (in order) and other
/// fields.
pub open spec fn same_image(a: Image, b: Image) -> bool {
    &&& image_digest(a) == image_digest(b)
    &&& image_tags(a) == image_tags(b)
    &&& match (a, b) {
        (Image::Local(x), Image::Local(y)) => same_local_details(x, y),
        (Image::Remote(_), Image::Remote(_)) => true,
        _ => false,
    }
}

/// Recording the same remote image a second time leaves the project as it
/// was: no image is added, and every image keeps its kind, digest, tags and
/// other fields. (The remote image's tags are sorted, as every tag set's
/// are.)
pub proof fn lemma_merge_step_twice(a: Seq<Image>, b: Seq<Image>, c: Seq<Image>, r: RemoteImage)
    requires
        sorted_texts(r.tags@),
        merge_step(a, b, r),
        merge_step(b, c, r),
    ensures
        c.len() == b.len(),
        forall|j: int|
            0 <= j < b.len() ==> image_digest(#[trigger] c[j]) == image_digest(b[j]) && (forall|t: Seq<char>|
                #[trigger] image_tags(c[j]).contains(t) <==> image_tags(b[j]).contains(t)),
        forall|j: int| 0 <= j < b.len() ==> same_image(#[trigger] b[j], c[j]),
{
    let d = r.digest@;
    crate::search::lemma_first_match_exists(a, digest_is(d));
    crate::search::lemma_first_match_exists(b, digest_is(d));
    let k = first_match(a, digest_is(d));
    let k2 = first_match(b, digest_is(d));
    let m = if k < a.len() {
        k
    } else {
        a.len() as int
    };
    assert(digest_is(d)(b[m]));
    assert forall|j: int| 0 <= j < m implies !digest_is(d)(#[trigger] b[j]) by {
        if k < a.len() {
            assert(b[j] == a[j]);
        } else {
            assert(b[j] == b.subrange(0, a.len() as int)[j]);
        }
    }
    crate::search::lemma_first_match(b, digest_is(d), m);
    assert(k2 == m);
    assert forall|t: Seq<char>| r.tags@.contains(t) implies #[trigger] image_tags(b[m]).contains(t) by {}
    assert(sorted_texts(image_tags(b[m])));
    assert(forall|t: Seq<char>| #[trigger] image_tags(c[m]).contains(t) <==> image_tags(b[m]).contains(t));
    crate::image::tags::lemma_sorted_same_tags(image_tags(c[m]), image_tags(b[m]));
    assert forall|j: int| 0 <= j < b.len() implies same_image(#[trigger] b[j], c[j]) by {
        if j != m {
            assert(c[j] == b[j]);
        }
    }
}

/// `states` runs from `old_imgs` to `new_imgs`, recording one of `rs` at
/// each step.
pub open spec fn merge_trace(old_imgs: Seq<Image>, new_imgs: Seq<Image>, rs: Seq<RemoteImage>, states: Seq<Seq<Image>>) -> bool {
    &&& states.len() == rs.len() + 1
    &&& states[0] == old_imgs
    &&& states.last() == new_imgs
    &&& forall|i: int| 0 <= i < rs.len() ==> merge_step(#[trigger] states[i], states[i + 1], rs[i])
}

/// `new_imgs` is `old_imgs` after recording each of `rs` in turn.
pub open spec fn merges_all(old_imgs: Seq<Image>, new_imgs: Seq<Image>, rs: Seq<RemoteImage>) -> bool {
    exists|states: Seq<Seq<Image>>| merge_trace(old_imgs, new_imgs, rs, states)
}

/// Recording one remote image keeps every image where it was with its
/// digest, and leaves an image that carries the recorded digest.
proof fn lemma_merge_step_digests(a: Seq<Image>, b: Seq<Image>, r: RemoteImage)
    requires
        merge_step(a, b, r),
    ensures
        a.len() <= b.len(),
        forall|j: int| 0 <= j < a.len() ==> image_digest(#[trigger] b[j]) == image_digest(a[j]),
        exists|j: int| 0 <= j < b.len() && image_digest(#[trigger] b[j]) == Some(r.digest@),
{
    let d = r.digest@;
    crate::search::lemma_first_match_exists(a, digest_is(d));
    let k = first_match(a, digest_is(d));
    if k < a.len() {
        assert(digest_is(d)(a[k]));
        assert(image_digest(b[k]) == Some(d));
    } else {
        assert forall|j: int| 0 <= j < a.len() implies image_digest(#[trigger] b[j]) == image_digest(a[j]) by {
            assert(b[j] == b.subrange(0, a.len() as int)[j]);
        }
        assert(image_digest(b[b.len() - 1]) == Some(d));
    }
}

proof fn lemma_merge_trace_digests(
    old_imgs: Seq<Image>,
    new_imgs: Seq<Image>,
    rs: Seq<RemoteImage>,
    states: Seq<Seq<Image>>,
    m: int,
)
    requires
        merge_trace(old_imgs, new_imgs, rs, states),
        0 <= m <= rs.len(),
    ensures
        old_imgs.len() <= states[m].len(),
        forall|j: int| 0 <= j < old_imgs.len() ==> image_digest(#[trigger] states[m][j]) == image_digest(old_imgs[j]),
        forall|i: int|
            0 <= i < m ==> exists|j: int| 0 <= j < states[m].len() && image_digest(#[trigger] states[m][j]) == Some(
                (#[trigger] rs[i]).digest@,
            ),
    decreases m,
{
    if m > 0 {
        lemma_merge_trace_digests(old_imgs, new_imgs, rs, states, m - 1);
        let a = states[m - 1];
        let b = states[m];
        assert(merge_step(a, b, rs[m - 1]));
        lemma_merge_step_digests(a, b, rs[m - 1]);
        assert forall|j: int| 0 <= j < old_imgs.len() implies image_digest(#[trigger] states[m][j]) == image_digest(
            old_imgs[j],
        ) by {
            assert(image_digest(b[j]) == image_digest(a[j]));
        }
        assert forall|i: int| 0 <= i < m implies exists|j: int|
            0 <= j < states[m].len() && image_digest(#[trigger] states[m][j]) == Some((#[trigger] rs[i]).digest@) by {
            if i < m - 1 {
                let j0 = choose|j: int| 0 <= j < a.len() && image_digest(#[trigger] a[j]) == Some(rs[i].digest@);
                assert(image_digest(b[j0]) == image_digest(a[j0]));
            }
        }
    }
}

/// Recording remote images in a project keeps every image where it was with
/// its digest, and leaves, for each recorded image, an image that carries its
/// digest: a recorded remote image is always found again by its digest.
pub proof fn lemma_merges_all_digests(old_imgs: Seq<Image>, new_imgs: Seq<Image>, rs: Seq<RemoteImage>)
    requires
        merges_all(old_imgs, new_imgs, rs),
    ensures
        old_imgs.len() <= new_imgs.len(),
        forall|j: int| 0 <= j < old_imgs.len() ==> image_digest(#[trigger] new_imgs[j]) == image_digest(old_imgs[j]),
        forall|i: int|
            0 <= i < rs.len() ==> exists|j: int| 0 <= j < new_imgs.len() && image_digest(#[trigger] new_imgs[j])
                == Some((#[trigger] rs[i]).digest@),
{
    let states = choose|states: Seq<Seq<Image>>| merge_trace(old_imgs, new_imgs, rs, states);
    lemma_merge_trace_digests(old_imgs, new_imgs, rs, states, rs.len() as int);
    assert(states[rs.len() as int] == new_imgs);
}

impl Project {
    /// An empty project named `name`.
    pub fn new(name: &str) -> (p: Project)
        ensures
            p.name@ == name@,
            p.images@.len() == 0,
    {
        Project { name: name.to_owned(), images: Vec::new() }
    }

    /// The project a repository belongs to: the text after its last `/` (all
    /// of it when there is none). Every repository has one.
    pub fn get_project_name(repository: &str) -> (r: Result<&str, ProjectError>)
        ensures
            r matches Ok(name) && is_last_segment(repository@, name@) && name@ == last_segment(repository@),
    {
        let n = repository.unicode_len();
        let mut k: usize = n;
        while k > 0 && repository.get_char(k - 1) != '/'
            invariant
                n == repository@.len(),
                k <= n,
                forall|j: int| k <= j < n ==> repository@[j] != '/',
            decreases k,
        {
            k = k - 1;
        }
        let name = repository.substring_char(k, n);
        proof {
            assert(name@ == repository@.subrange(k as int, n as int));
            assert forall|j: int| 0 <= j < name@.len() implies name@[j] != '/' by {
                assert(name@[j] == repository@[k + j]);
            }
            lemma_last_segment_unique(repository@, name@);
        }
        Ok(name)
    }

    /// The first local image with identifier `id`.
    pub fn find_image_with_id(&self, id: &Id) -> (r: Option<&Image>)
        ensures
            ({
                let k = first_match(self.images@, local_id_is(id@));
                &&& r is Some <==> k < self.images@.len()
                &&& r matches Some(img) ==> *img == self.images@[k] && is_local_with_id(*img, id@)
            }),
    {
        let mut i: usize = 0;
        while i < self.images.len()
            invariant
                i <= self.images@.len(),
                forall|j: int| 0 <= j < i ==> !local_id_is(id@)(#[trigger] self.images@[j]),
            decreases self.images.len() - i,
        {
            let found = match &self.images[i] {
                Image::Local(l) => hash_eq(&l.id, id),
                _ => false,
            };
            if found {
                proof {
                    lemma_first_match(self.images@, local_id_is(id@), i as int);
                }
                return Some(&self.images[i]);
            }
            i = i + 1;
        }
        proof {
            lemma_first_match(self.images@, local_id_is(id@), i as int);
        }
        None
    }

    /// As `find_image_with_id`, failing with `ImageNotFound`.
    pub fn try_find_image_with_id(&self, id: &Id) -> (r: Result<&Image, ProjectError>)
        ensures
            ({
                let k = first_match(self.images@, local_id_is(id@));
                &&& r is Ok <==> k < self.images@.len()
                &&& r matches Ok(img) ==> *img == self.images@[k] && is_local_with_id(*img, id@)
                &&& r matches Err(e) ==> e == ProjectError::ImageNotFound
            }),
    {
        match self.find_image_with_id(id) {
            Some(img) => Ok(img),
            None => Err(ProjectError::ImageNotFound),
        }
    }

    /// The first local image with identifier `id`, as a local image.
    pub fn try_find_local_image_with_id(&self, id: &Id) -> (r: Result<&LocalImage, ProjectError>)
        ensures
            ({
                let k = first_match(self.images@, local_id_is(id@));
                &&& r is Ok <==> k < self.images@.len()
                &&& r matches Ok(img) ==> self.images@[k] == Image::Local(*img) && img.id@ == id@
                &&& r matches Err(e) ==> e == ProjectError::ImageNotFound
            }),
    {
        match self.try_find_image_with_id(id) {
            Ok(Image::Local(local_img)) => Ok(local_img),
            Ok(_) => Err(ProjectError::NotLocal),
            Err(e) => Err(e),
        }
    }

    /// Records a remote image: merged into the first image carrying its digest,
    /// or added as a remote image when none does.
    pub fn merge_remote_image(&mut self, rimg: &RemoteImage)
        ensures
            final(self).name == old(self).name,
            merge_step(old(self).images@, final(self).images@, *rimg),
    {
        let mut i: usize = 0;
        while i < self.images.len()
            invariant
                i <= self.images@.len(),
                self.name == old(self).name,
                self.images@ == old(self).images@,
                forall|j: int| 0 <= j < i ==> !digest_is(rimg.digest@)(#[trigger] self.images@[j]),
            decreases self.images.len() - i,
        {
            if image_has_digest(&self.images[i], &rimg.digest) {
                proof {
                    lemma_first_match(self.images@, digest_is(rimg.digest@), i as int);
                }
                let ghost old_imgs = self.images@;
                let mut img = self.images.remove(i);
                rimg.merge_with(&mut img);
                self.images.insert(i, img);
                proof {
                    assert forall|j: int| 0 <= j < old_imgs.len() && j != i implies self.images@[j] == old_imgs[j] by {
                        if j < i {
                        } else {
                        }
                    }
                }
                return;
            }
            i = i + 1;
        }
        proof {
            lemma_first_match(self.images@, digest_is(rimg.digest@), i as int);
        }
        let ghost old_imgs = self.images@;
        self.images.push(Image::Remote(rimg.duplicate()));
        assert(self.images@.subrange(0, old_imgs.len() as int) =~= old_imgs);
    }

    /// Records each of `rs`, in order.
    pub fn merge_remote_images(&mut self, rs: &Vec<RemoteImage>)
        ensures
            final(self).name == old(self).name,
            merges_all(old(self).images@, final(self).images@, rs@),
    {
        let mut i: usize = 0;
        let ghost mut states: Seq<Seq<Image>> = seq![self.images@];
        while i < rs.len()
            invariant
                i <= rs@.len(),
                self.name == old(self).name,
                merge_trace(old(self).images@, self.images@, rs@.subrange(0, i as int), states),
            decreases rs.len() - i,
        {
            let ghost mid = self.images@;
            self.merge_remote_image(&rs[i]);
            proof {
                let prev = states;
                states = states.push(self.images@);
                let pre = rs@.subrange(0, i + 1);
                assert forall|j: int| 0 <= j < pre.len() implies merge_step(#[trigger] states[j], states[j + 1], pre[j]) by {
                    if j < i {
                        assert(states[j] == prev[j]);
                        assert(states[j + 1] == prev[j + 1]);
                        assert(pre[j] == rs@.subrange(0, i as int)[j]);
                    } else {
                        assert(states[j] == mid);
                    }
                }
            }
            i = i + 1;
        }
        assert(rs@.subrange(0, rs@.len() as int) =~= rs@);
    }
}

} // verus!
