//! The persisted store: per project, the digests and the images known to be
//! in its registry.

use vstd::prelude::*;
use crate::image::prelude::{Digest, hash_copy, hash_eq};
use crate::image::remote::RemoteImage;
use crate::name_map::NameMap;
use crate::search::{lemma_filter_all, lemma_filter_push};

verus! {

/// What the store knows of the registries.
pub struct Store {
    /// Digests known to be in each project's registry.
    pub project_registry_digests: NameMap<Vec<Digest>>,
    /// Images known to be in each project's registry.
    pub project_remote_images: NameMap<Vec<RemoteImage>>,
}

/// Why a store update was refused.
#[derive(Debug, Clone, Copy, PartialEq, Eq, Structural)]
pub enum StoreError {
    /// The project has no digest list.
    DigestsNotFound,
    /// The project has no image list.
    ProjectNotFound,
}

/// The text of a store error.
pub open spec fn store_error_text(e: StoreError) -> Seq<char> {
    match e {
        StoreError::DigestsNotFound => "Cannot find digest"@,
        StoreError::ProjectNotFound => "Cannot find project"@,
    }
}

impl StoreError {
    /// What the error says.
    pub fn message(&self) -> (m: String)
        ensures
            m@ == store_error_text(*self),
    {
        match self {
            StoreError::DigestsNotFound => "Cannot find digest".to_owned(),
            StoreError::ProjectNotFound => "Cannot find project".to_owned(),
        }
    }
}

/// The condition that keeps digests other than `d`.
pub open spec fn digest_differs(d: Seq<u8>) -> spec_fn(Digest) -> bool {
    |x: Digest| x@ != d
}

/// The condition that keeps images whose digest is not `d`.
pub open spec fn remote_digest_differs(d: Seq<u8>) -> spec_fn(RemoteImage) -> bool {
    |r: RemoteImage| r.digest@ != d
}

/// The digests of `v` other than `d`, in order.
pub fn without_digest(v: &Vec<Digest>, d: &Digest) -> (r: Vec<Digest>)
    ensures
        r@ == v@.filter(digest_differs(d@)),
{
    let mut out: Vec<Digest> = Vec::new();
    let mut i: usize = 0;
    while i < v.len()
        invariant
            i <= v@.len(),
            out@ == v@.subrange(0, i as int).filter(digest_differs(d@)),
        decreases v.len() - i,
    {
        proof {
            lemma_filter_push(v@.subrange(0, i as int), digest_differs(d@), v@[i as int]);
            assert(v@.subrange(0, i as int).push(v@[i as int]) =~= v@.subrange(0, i + 1));
        }
        if !hash_eq(&v[i], d) {
            let x = hash_copy(&v[i]);
            proof {
                assert(x == v@[i as int]);
            }
            out.push(x);
        }
        i = i + 1;
    }
    assert(v@.subrange(0, v@.len() as int) =~= v@);
    out
}

/// A copy of a list of digests.
pub fn copy_digests(v: &Vec<Digest>) -> (r: Vec<Digest>)
    ensures
        r@ == v@,
{
    let mut out: Vec<Digest> = Vec::new();
    let mut i: usize = 0;
    while i < v.len()
        invariant
            i <= v@.len(),
            out@ == v@.subrange(0, i as int),
        decreases v.len() - i,
    {
        let x = hash_copy(&v[i]);
        assert(x == v@[i as int]);
        out.push(x);
        assert(out@ =~= v@.subrange(0, i + 1));
        i = i + 1;
    }
    assert(out@ =~= v@);
    out
}

/// The images of `v` whose digest is not `d`, in order.
pub fn without_remote_digest(v: Vec<RemoteImage>, d: &Digest) -> (r: Vec<RemoteImage>)
    ensures
        r@ == v@.filter(remote_digest_differs(d@)),
{
    let ghost orig = v@;
    let n = v.len();
    let mut rest = v;
    let mut out: Vec<RemoteImage> = Vec::new();
    let mut i: usize = 0;
    while rest.len() > 0
        invariant
            i <= orig.len(),
            i + rest@.len() == orig.len(),
            orig.len() == n,
            rest@ == orig.subrange(i as int, orig.len() as int),
            out@ == orig.subrange(0, i as int).filter(remote_digest_differs(d@)),
        decreases rest.len(),
    {
        let x = rest.remove(0);
        proof {
            assert(x == orig[i as int]);
            lemma_filter_push(orig.subrange(0, i as int), remote_digest_differs(d@), x);
            assert(orig.subrange(0, i as int).push(x) =~= orig.subrange(0, i + 1));
            assert(rest@ =~= orig.subrange(i + 1, orig.len() as int));
        }
        if !hash_eq(&x.digest, d) {
            out.push(x);
        }
        i = i + 1;
    }
    assert(orig.subrange(0, orig.len() as int) =~= orig);
    out
}

impl Store {
    /// An empty store.
    pub fn empty() -> (s: Store)
        ensures
            s.project_registry_digests@ == Map::<Seq<char>, Vec<Digest>>::empty(),
            s.project_remote_images@ == Map::<Seq<char>, Vec<RemoteImage>>::empty(),
    {
        Store { project_registry_digests: NameMap::new(), project_remote_images: NameMap::new() }
    }

    /// Replaces the store with what `setter` makes of it, and gives the
    /// setter's outcome; the caller saves the store when it succeeds.
    pub fn sync<S: FnOnce(Store) -> (Store, Result<(), StoreError>)>(&mut self, setter: S) -> (r: Result<(), StoreError>)
        requires
            setter.requires((*old(self),)),
        ensures
            setter.ensures((*old(self),), (*final(self), r)),
    {
        let mut current = Store::empty();
        std::mem::swap(&mut current, self);
        let (next, r) = setter(current);
        *self = next;
        r
    }

    /// Drops `digest` from the project's digest list; fails when the project
    /// has none, leaving the store as it was.
    pub fn remove_digest(&mut self, project_name: &str, digest: &[u8; 32]) -> (r: Result<(), StoreError>)
        ensures
            final(self).project_remote_images == old(self).project_remote_images,
            ({
                let old_map = old(self).project_registry_digests@;
                let new_map = final(self).project_registry_digests@;
                if old_map.dom().contains(project_name@) {
                    &&& r is Ok
                    &&& new_map == old_map.insert(project_name@, new_map[project_name@])
                    &&& new_map[project_name@]@ == old_map[project_name@]@.filter(digest_differs(digest@))
                } else {
                    &&& r == Err::<(), StoreError>(StoreError::DigestsNotFound)
                    &&& final(self).project_registry_digests == old(self).project_registry_digests
                }
            }),
    {
        match self.project_registry_digests.get(project_name) {
            None => Err(StoreError::DigestsNotFound),
            Some(digests) => {
                let kept = without_digest(digests, digest);
                let ghost kv = kept@;
                self.project_registry_digests.insert(project_name.to_owned(), kept);
                assert(self.project_registry_digests@[project_name@]@ == kv);
                Ok(())
            },
        }
    }

    /// Adds `digest` to the end of the project's digest list; fails when the
    /// project has none, leaving the store as it was.
    pub fn push_digest(&mut self, project_name: &str, digest: &[u8; 32]) -> (r: Result<(), StoreError>)
        ensures
            final(self).project_remote_images == old(self).project_remote_images,
            ({
                let old_map = old(self).project_registry_digests@;
                let new_map = final(self).project_registry_digests@;
                if old_map.dom().contains(project_name@) {
                    &&& r is Ok
                    &&& new_map == old_map.insert(project_name@, new_map[project_name@])
                    &&& new_map[project_name@]@ == old_map[project_name@]@.push(*digest)
                } else {
                    &&& r == Err::<(), StoreError>(StoreError::DigestsNotFound)
                    &&& final(self).project_registry_digests == old(self).project_registry_digests
                }
            }),
    {
        match self.project_registry_digests.get(project_name) {
            None => Err(StoreError::DigestsNotFound),
            Some(digests) => {
                let mut v = copy_digests(digests);
                let x = hash_copy(digest);
                assert(x == *digest);
                v.push(x);
                let ghost vv = v@;
                self.project_registry_digests.insert(project_name.to_owned(), v);
                assert(self.project_registry_digests@[project_name@]@ == vv);
                Ok(())
            },
        }
    }

    /// Drops the images with `remote_image`'s digest from the project's image
    /// list; fails when the project has none, leaving the store as it was.
    pub fn remove_remote_image(&mut self, project_name: &str, remote_image: &RemoteImage) -> (r: Result<(), StoreError>)
        ensures
            final(self).project_registry_digests == old(self).project_registry_digests,
            ({
                let old_map = old(self).project_remote_images@;
                let new_map = final(self).project_remote_images@;
                if old_map.dom().contains(project_name@) {
                    &&& r is Ok
                    &&& new_map == old_map.insert(project_name@, new_map[project_name@])
                    &&& new_map[project_name@]@ == old_map[project_name@]@.filter(remote_digest_differs(remote_image.digest@))
                } else {
                    &&& r == Err::<(), StoreError>(StoreError::ProjectNotFound)
                    &&& final(self).project_remote_images == old(self).project_remote_images
                }
            }),
    {
        match self.project_remote_images.index_of(project_name) {
            None => Err(StoreError::ProjectNotFound),
            Some(_) => {
                let mut empty: Vec<RemoteImage> = Vec::new();
                let old_images = self.project_remote_images.insert(project_name.to_owned(), empty);
                let images = match old_images {
                    Some(v) => v,
                    None => Vec::new(),
                };
                let kept = without_remote_digest(images, &remote_image.digest);
                let ghost kv = kept@;
                self.project_remote_images.insert(project_name.to_owned(), kept);
                assert(self.project_remote_images@[project_name@]@ == kv);
                Ok(())
            },
        }
    }

    /// Adds `remote_image` to the end of the project's image list; fails when
    /// the project has none, leaving the store as it was.
    pub fn push_remote_image(&mut self, project_name: &str, remote_image: RemoteImage) -> (r: Result<(), StoreError>)
        ensures
            final(self).project_registry_digests == old(self).project_registry_digests,
            ({
                let old_map = old(self).project_remote_images@;
                let new_map = final(self).project_remote_images@;
                if old_map.dom().contains(project_name@) {
                    &&& r is Ok
                    &&& new_map == old_map.insert(project_name@, new_map[project_name@])
                    &&& new_map[project_name@]@ == old_map[project_name@]@.push(remote_image)
                } else {
                    &&& r == Err::<(), StoreError>(StoreError::ProjectNotFound)
                    &&& final(self).project_remote_images == old(self).project_remote_images
                }
            }),
    {
        match self.project_remote_images.index_of(project_name) {
            None => Err(StoreError::ProjectNotFound),
            Some(_) => {
                let empty: Vec<RemoteImage> = Vec::new();
                let old_images = self.project_remote_images.insert(project_name.to_owned(), empty);
                let mut images = match old_images {
                    Some(v) => v,
                    None => Vec::new(),
                };
                images.push(remote_image);
                let ghost iv = images@;
                self.project_remote_images.insert(project_name.to_owned(), images);
                assert(self.project_remote_images@[project_name@]@ == iv);
                Ok(())
            },
        }
    }
}

/// Removing an image's digest from a project's image list right after
/// pushing that image leaves the list as removing the digest alone would:
/// the pushed image is gone again and nothing else changed.
pub proof fn lemma_remove_after_push(images: Seq<RemoteImage>, img: RemoteImage)
    ensures
        images.push(img).filter(remote_digest_differs(img.digest@)) == images.filter(
            remote_digest_differs(img.digest@),
        ),
{
    lemma_filter_push(images, remote_digest_differs(img.digest@), img);
}

/// Removing a digest from a project's digest list right after pushing it
/// leaves the list as removing it alone would.
pub proof fn lemma_remove_digest_after_push(digests: Seq<Digest>, d: Digest)
    ensures
        digests.push(d).filter(digest_differs(d@)) == digests.filter(digest_differs(d@)),
{
    lemma_filter_push(digests, digest_differs(d@), d);
}

/// After removing a digest, no image of the list has it.
pub proof fn lemma_removed_digest_absent(images: Seq<RemoteImage>, d: Seq<u8>)
    ensures
        forall|i: int|
            0 <= i < images.filter(remote_digest_differs(d)).len() ==> (#[trigger] images.filter(
                remote_digest_differs(d),
            )[i]).digest@ != d,
{
    assert forall|i: int| 0 <= i < images.filter(remote_digest_differs(d)).len() implies (#[trigger] images.filter(
        remote_digest_differs(d),
    )[i]).digest@ != d by {
        images.lemma_filter_pred(remote_digest_differs(d), i);
    }
}

/// Pushing a digest a project's list lacked and then removing it gives the
/// list back as it was.
pub proof fn lemma_push_then_remove_digest_restores(digests: Seq<Digest>, d: Digest)
    requires
        forall|i: int| 0 <= i < digests.len() ==> (#[trigger] digests[i])@ != d@,
    ensures
        digests.push(d).filter(digest_differs(d@)) == digests,
{
    lemma_remove_digest_after_push(digests, d);
    lemma_filter_all(digests, digest_differs(d@));
}

/// Pushing an image whose digest a project's image list lacked and then
/// removing that digest gives the list back as it was.
pub proof fn lemma_push_then_remove_image_restores(images: Seq<RemoteImage>, img: RemoteImage)
    requires
        forall|i: int| 0 <= i < images.len() ==> (#[trigger] images[i]).digest@ != img.digest@,
    ensures
        images.push(img).filter(remote_digest_differs(img.digest@)) == images,
{
    lemma_remove_after_push(images, img);
    lemma_filter_all(images, remote_digest_differs(img.digest@));
}

/// On the store: pushing a digest that a project's list lacked
/// (`push_digest`, giving `mid`) and then removing it (`remove_digest`,
/// giving `after`) leaves every project's digest list as it was before.
pub proof fn lemma_store_push_then_remove_digest(
    before: Map<Seq<char>, Vec<Digest>>,
    mid: Map<Seq<char>, Vec<Digest>>,
    after: Map<Seq<char>, Vec<Digest>>,
    name: Seq<char>,
    d: Digest,
)
    requires
        before.dom().contains(name),
        forall|i: int| 0 <= i < before[name]@.len() ==> (#[trigger] before[name]@[i])@ != d@,
        mid == before.insert(name, mid[name]),
        mid[name]@ == before[name]@.push(d),
        after == mid.insert(name, after[name]),
        after[name]@ == mid[name]@.filter(digest_differs(d@)),
    ensures
        after.dom() == before.dom(),
        forall|k: Seq<char>| #[trigger] before.dom().contains(k) ==> after[k]@ == before[k]@,
{
    lemma_push_then_remove_digest_restores(before[name]@, d);
    assert(after.dom() =~= before.dom());
}

} // verus!
