//! What the actions that reach outside the interface will run: commands
//! built from the configured templates, image references to push and pull,
//! and the images to prune.

use vstd::prelude::*;
use crate::image::Image;
use crate::image::local::LocalImage;
use crate::image::prelude::{Digest, hash_eq};
use crate::project::{Project, last_segment};
use crate::relation::{project_reference, project_url, tag_reference, tag_references, tag_urls};
use crate::text::{lemma_replaced_absent, replace_all, replaced};
use crate::tui::config::RegistryCommands;
use crate::tui::state::{AppState, image_selected, project_selected, selected_project_of};
use crate::utils::{
    ShaParseError, encode_hex, hex_lower, lemma_digest_text_round_trip, prefixed_digest_text,
    sha256_prefix, sha_parse_result,
};

verus! {

/// Why an action cannot run.
#[derive(Debug, Clone, Copy, PartialEq, Eq, Structural)]
pub enum ActionError {
    /// The image has no digest.
    NoDigest,
    /// The selected project's registry, or its commands, are not configured.
    NoRegistryCommands,
    /// The selected project has no configured registry.
    NoRegistry,
    /// The image is not a local one.
    NotLocal,
    /// The image is a local one, so there is nothing to pull.
    NotRemote,
    /// The image has no tag.
    Untagged,
}

/// The text of an action error.
pub open spec fn action_error_text(e: ActionError) -> Seq<char> {
    match e {
        ActionError::NoDigest => "Image has no digest"@,
        ActionError::NoRegistryCommands => "Unconfigured registry or registry commands"@,
        ActionError::NoRegistry => "Selected project has no configured registry"@,
        ActionError::NotLocal => "Image is not local"@,
        ActionError::NotRemote => "Cannot pull local image"@,
        ActionError::Untagged => "Image has not been tagged"@,
    }
}

impl ActionError {
    /// What the error says.
    pub fn message(&self) -> (m: String)
        ensures
            m@ == action_error_text(*self),
    {
        let t = match self {
            ActionError::NoDigest => "Image has no digest",
            ActionError::NoRegistryCommands => "Unconfigured registry or registry commands",
            ActionError::NoRegistry => "Selected project has no configured registry",
            ActionError::NotLocal => "Image is not local",
            ActionError::NotRemote => "Cannot pull local image",
            ActionError::Untagged => "Image has not been tagged",
        };
        t.to_owned()
    }
}

/// A delete command, and the project whose store entry it affects.
pub struct DeletePlan {
    pub project_name: String,
    pub command: String,
}

/// A listing command, and the project it lists.
pub struct FetchPlan {
    pub project_name: String,
    pub command: String,
}

/// What pulling a remote image runs: the reference pulled, and the other
/// references of the image to tag it with.
pub struct PullPlan {
    pub image: String,
    pub retags: Vec<String>,
}

/// What pushing a local image runs: the image's id, and the reference of
/// each of its tags.
pub struct PushPlan {
    pub id: String,
    pub tag_urls: Vec<String>,
}

/// The commands of the selected project's registry, when configured.
pub open spec fn selected_commands_of(s: AppState) -> Option<RegistryCommands> {
    let regs = s.config.project_registries@;
    let cmds = s.config.registry_commands@;
    let n = selected_project_of(s).name@;
    if regs.dom().contains(n) && cmds.dom().contains(regs[n]@) {
        Some(cmds[regs[n]@])
    } else {
        None
    }
}

/// The delete command for an image: the template with `{id}`,
/// `{repository}`, `{project}` and `{digest}` replaced in that order.
pub open spec fn delete_command_text(template: Seq<char>, img: LocalImage, project: Seq<char>, digest: Seq<u8>) -> Seq<char> {
    replaced(
        replaced(
            replaced(replaced(template, "{id}"@, hex_lower(img.id@)), "{repository}"@, img.repository@),
            "{project}"@,
            project,
        ),
        "{digest}"@,
        hex_lower(digest),
    )
}

/// With the template `{digest}`, the delete command is the digest's
/// lower-case hexadecimal text, bytes in order: put after `sha256:` it reads
/// back as the very digest, whatever the image and project.
pub proof fn lemma_delete_command_digest(img: LocalImage, project: Seq<char>, d: Seq<u8>)
    requires
        d.len() == 32,
    ensures
        delete_command_text("{digest}"@, img, project, d) == hex_lower(d),
        sha_parse_result(vstd::utf8::encode_utf8(sha256_prefix() + delete_command_text("{digest}"@, img, project, d)))
            == Ok::<Seq<u8>, ShaParseError>(d),
{
    reveal_strlit("{digest}");
    reveal_strlit("{id}");
    reveal_strlit("{repository}");
    reveal_strlit("{project}");
    let dig = "{digest}"@;
    let h = hex_lower(d);
    lemma_other_placeholder(dig, "{id}"@, hex_lower(img.id@));
    lemma_other_placeholder(dig, "{repository}"@, img.repository@);
    lemma_other_placeholder(dig, "{project}"@, project);
    lemma_replaced_whole(dig, h);
    assert(sha256_prefix() + h == prefixed_digest_text(d));
    lemma_digest_text_round_trip(d);
}

/// A placeholder replaced in a text that is that placeholder alone gives the
/// replacement.
proof fn lemma_replaced_whole(p: Seq<char>, r: Seq<char>)
    requires
        p.len() > 0,
    ensures
        replaced(p, p, r) == r,
{
    assert(p.subrange(0, p.len() as int) =~= p);
    assert(p.skip(p.len() as int) =~= Seq::<char>::empty());
    assert(replaced(Seq::<char>::empty(), p, r) == Seq::<char>::empty());
    assert(replaced(p, p, r) =~= r);
}

/// A text without `{` is left alone by the replacement of a placeholder.
proof fn lemma_replaced_no_brace(t: Seq<char>, p: Seq<char>, r: Seq<char>)
    requires
        p.len() > 0,
        p[0] == '{',
        forall|i: int| 0 <= i < t.len() ==> t[i] != '{',
    ensures
        replaced(t, p, r) == t,
{
    assert forall|i: int| 0 <= i && i + p.len() <= t.len() implies #[trigger] t.subrange(i, i + p.len()) != p by {
        assert(t.subrange(i, i + p.len())[0] == t[i]);
    }
    lemma_replaced_absent(t, p, r);
}

/// A placeholder is left alone by the replacement of another one: both
/// start with `{`, differ in their second character, and have no other `{`.
proof fn lemma_other_placeholder(t: Seq<char>, p: Seq<char>, r: Seq<char>)
    requires
        t.len() >= 2,
        p.len() >= 2,
        t[0] == '{',
        p[0] == '{',
        t[1] != p[1],
        forall|i: int| 0 < i < t.len() ==> t[i] != '{',
    ensures
        replaced(t, p, r) == t,
{
    assert forall|i: int| 0 <= i && i + p.len() <= t.len() implies #[trigger] t.subrange(i, i + p.len()) != p by {
        if i == 0 {
            assert(t.subrange(i, i + p.len())[1] == t[1]);
        } else {
            assert(t.subrange(i, i + p.len())[0] == t[i]);
        }
    }
    lemma_replaced_absent(t, p, r);
}

/// Hexadecimal text holds no `{`.
proof fn lemma_hex_no_brace(x: Seq<u8>)
    ensures
        forall|i: int| 0 <= i < hex_lower(x).len() ==> hex_lower(x)[i] != '{',
{
    assert forall|i: int| 0 <= i < hex_lower(x).len() implies hex_lower(x)[i] != '{' by {
        let v: u8 = if i % 2 == 0 { x[i / 2] / 16 } else { x[i / 2] % 16 };
        assert(0 <= v < 16);
    }
}

/// A delete template that is one placeholder alone gives that placeholder's
/// value: `{id}` the identifier's hexadecimal text, `{repository}` the
/// repository, `{project}` the project and `{digest}` the digest's
/// hexadecimal text (for a repository and project without `{`, which a later
/// replacement could otherwise reach).
pub proof fn lemma_delete_command_placeholders(img: LocalImage, project: Seq<char>, d: Seq<u8>)
    requires
        forall|i: int| 0 <= i < img.repository@.len() ==> img.repository@[i] != '{',
        forall|i: int| 0 <= i < project.len() ==> project[i] != '{',
    ensures
        delete_command_text("{id}"@, img, project, d) == hex_lower(img.id@),
        delete_command_text("{repository}"@, img, project, d) == img.repository@,
        delete_command_text("{project}"@, img, project, d) == project,
        delete_command_text("{digest}"@, img, project, d) == hex_lower(d),
{
    reveal_strlit("{digest}");
    reveal_strlit("{id}");
    reveal_strlit("{repository}");
    reveal_strlit("{project}");
    let id = "{id}"@;
    let repo = "{repository}"@;
    let proj = "{project}"@;
    let dig = "{digest}"@;
    let hi = hex_lower(img.id@);
    let hd = hex_lower(d);
    lemma_hex_no_brace(img.id@);
    lemma_hex_no_brace(d);
    lemma_replaced_whole(id, hi);
    lemma_replaced_no_brace(hi, repo, img.repository@);
    lemma_replaced_no_brace(hi, proj, project);
    lemma_replaced_no_brace(hi, dig, hd);
    lemma_other_placeholder(repo, id, hi);
    lemma_replaced_whole(repo, img.repository@);
    lemma_replaced_no_brace(img.repository@, proj, project);
    lemma_replaced_no_brace(img.repository@, dig, hd);
    lemma_other_placeholder(proj, id, hi);
    lemma_other_placeholder(proj, repo, img.repository@);
    lemma_replaced_whole(proj, project);
    lemma_replaced_no_brace(project, dig, hd);
    lemma_other_placeholder(dig, id, hi);
    lemma_other_placeholder(dig, repo, img.repository@);
    lemma_other_placeholder(dig, proj, project);
    lemma_replaced_whole(dig, hd);
}

/// Deleting an image without a digest is refused for that, whatever the
/// configuration; one with a digest is refused only when the selected
/// project's registry commands are missing, and otherwise runs in the project
/// named after the last segment of the image's repository.
pub proof fn lemma_delete_result_cases(s: AppState, img: LocalImage)
    ensures
        img.digest is None ==> delete_result(s, img) == Err::<(Seq<char>, Seq<char>), ActionError>(
            ActionError::NoDigest,
        ),
        img.digest is Some && selected_commands_of(s) is None ==> delete_result(s, img) == Err::<
            (Seq<char>, Seq<char>),
            ActionError,
        >(ActionError::NoRegistryCommands),
        img.digest is Some && selected_commands_of(s) is Some ==> (delete_result(s, img) matches Ok((n, _))
            && n == last_segment(img.repository@)),
{
}

/// Deleting an image through the template `{digest}` runs a command that
/// reads back, after `sha256:`, as the image's own digest.
pub proof fn lemma_delete_result_digest(s: AppState, img: LocalImage)
    requires
        img.digest is Some,
        selected_commands_of(s) is Some,
        selected_commands_of(s)->0.delete_image@ == "{digest}"@,
    ensures
        delete_result(s, img) matches Ok((n, c)) && c == hex_lower(img.digest->0@)
            && sha_parse_result(vstd::utf8::encode_utf8(sha256_prefix() + c))
                == Ok::<Seq<u8>, ShaParseError>(img.digest->0@),
{
    lemma_delete_command_digest(img, last_segment(img.repository@), img.digest->0@);
}

/// The image is a local one whose digest is among `digests`.
pub open spec fn prunable(img: Image, digests: Seq<Digest>) -> bool {
    img matches Image::Local(l) && l.digest matches Some(d) && digests.contains(d)
}

/// The image selected in the selected project.
pub open spec fn selected_image_of(s: AppState) -> Image {
    selected_project_of(s).images@[s.image_table_state.selected->0 as int]
}

/// What deleting local image `img` runs: the project it belongs to and the
/// delete command; fails when the image has no digest, then when the
/// selected project's registry commands are not configured.
pub open spec fn delete_result(s: AppState, img: LocalImage) -> Result<(Seq<char>, Seq<char>), ActionError> {
    if img.digest is None {
        Err(ActionError::NoDigest)
    } else if selected_commands_of(s) is None {
        Err(ActionError::NoRegistryCommands)
    } else {
        let n = last_segment(img.repository@);
        Ok((n, delete_command_text(selected_commands_of(s)->0.delete_image@, img, n, img.digest->0@)))
    }
}

/// The command listing the selected project's remote images: the listing
/// template with `{project}` replaced; fails when the registry's commands
/// are not configured.
pub open spec fn fetch_result(s: AppState) -> Result<Seq<char>, ActionError> {
    match selected_commands_of(s) {
        None => Err(ActionError::NoRegistryCommands),
        Some(c) => Ok(replaced(c.list_images@, "{project}"@, selected_project_of(s).name@)),
    }
}

/// What pulling the selected image runs: `registry/project:tag` for its
/// first tag, and the references of its other tags; fails when the project
/// has no registry, then when the image is a local one, then when it has no
/// tag.
pub open spec fn pull_result(s: AppState) -> Result<(Seq<char>, Seq<Seq<char>>), ActionError> {
    let p = selected_project_of(s);
    let img = selected_image_of(s);
    let regs = s.config.project_registries@;
    if !regs.dom().contains(p.name@) {
        Err(ActionError::NoRegistry)
    } else if img is Local {
        Err(ActionError::NotRemote)
    } else if img->Remote_0.tags@.len() == 0 {
        Err(ActionError::Untagged)
    } else {
        let base = project_reference(regs[p.name@]@, p.name@);
        let tags = img->Remote_0.tags@;
        Ok((tag_reference(base, tags[0]), tag_references(base, tags.drop_first())))
    }
}

/// What pushing the selected image runs: its id in hexadecimal, and
/// `registry/project:tag` for each of its tags; fails when the image is not
/// a local one, then when the project has no registry.
pub open spec fn push_result(s: AppState) -> Result<(Seq<char>, Seq<Seq<char>>), ActionError> {
    let p = selected_project_of(s);
    let img = selected_image_of(s);
    let regs = s.config.project_registries@;
    if img is Remote {
        Err(ActionError::NotLocal)
    } else if !regs.dom().contains(p.name@) {
        Err(ActionError::NoRegistry)
    } else {
        Ok(
            (
                hex_lower(img->Local_0.id@),
                tag_references(project_reference(regs[p.name@]@, p.name@), img->Local_0.tags@),
            ),
        )
    }
}

/// Positions among the first `n` of `imgs` of the prunable images, in
/// increasing order.
pub open spec fn prunable_positions(imgs: Seq<Image>, digests: Seq<Digest>, n: nat) -> Seq<usize>
    decreases n,
{
    if n == 0 {
        Seq::empty()
    } else if prunable(imgs[n - 1], digests) {
        prunable_positions(imgs, digests, (n - 1) as nat).push((n - 1) as usize)
    } else {
        prunable_positions(imgs, digests, (n - 1) as nat)
    }
}

/// Whether one of `digests` is `d`.
fn digests_contain(digests: &Vec<Digest>, d: &Digest) -> (b: bool)
    ensures
        b == digests@.contains(*d),
{
    let mut i: usize = 0;
    while i < digests.len()
        invariant
            i <= digests@.len(),
            forall|j: int| 0 <= j < i ==> digests@[j] != *d,
        decreases digests.len() - i,
    {
        if hash_eq(&digests[i], d) {
            assert(digests@[i as int] == *d);
            return true;
        }
        i = i + 1;
    }
    false
}

impl AppState {
    /// The command deleting `image` from the selected project's registry;
    /// fails when the image has no digest, then when the registry's commands
    /// are not configured.
    pub fn delete_image_command(&self, image: &LocalImage) -> (r: Result<DeletePlan, ActionError>)
        requires
            image.digest is Some ==> project_selected(*self),
        ensures
            match delete_result(*self, *image) {
                Err(e) => r == Err::<DeletePlan, ActionError>(e),
                Ok((n, c)) => r matches Ok(plan) && plan.project_name@ == n && plan.command@ == c,
            },
    {
        let project_name = match Project::get_project_name(image.repository.as_str()) {
            Ok(n) => n.to_owned(),
            Err(_) => image.repository.clone(),
        };
        let digest = match &image.digest {
            Some(d) => d,
            None => {
                return Err(ActionError::NoDigest);
            },
        };
        let cmds = match self.selected_cmds() {
            Some(c) => c,
            None => {
                return Err(ActionError::NoRegistryCommands);
            },
        };
        proof {
            reveal_strlit("{id}");
            reveal_strlit("{repository}");
            reveal_strlit("{project}");
            reveal_strlit("{digest}");
        }
        let c1 = replace_all(cmds.delete_image.as_str(), "{id}", encode_hex(&image.id).as_str());
        let c2 = replace_all(c1.as_str(), "{repository}", image.repository.as_str());
        let c3 = replace_all(c2.as_str(), "{project}", project_name.as_str());
        let c4 = replace_all(c3.as_str(), "{digest}", encode_hex(digest).as_str());
        Ok(DeletePlan { project_name, command: c4 })
    }

    /// The command listing the selected project's remote images: the
    /// registry's listing template with `{project}` replaced; fails when the
    /// registry's commands are not configured.
    pub fn list_images_command(&self) -> (r: Result<FetchPlan, ActionError>)
        requires
            project_selected(*self),
        ensures
            match fetch_result(*self) {
                Err(e) => r == Err::<FetchPlan, ActionError>(e),
                Ok(c) => r matches Ok(plan) && plan.project_name == selected_project_of(*self).name
                    && plan.command@ == c,
            },
    {
        let cmds = match self.selected_cmds() {
            Some(c) => c,
            None => {
                return Err(ActionError::NoRegistryCommands);
            },
        };
        let project_name = self.selected_project().name.clone();
        proof {
            reveal_strlit("{project}");
        }
        let command = replace_all(cmds.list_images.as_str(), "{project}", project_name.as_str());
        Ok(FetchPlan { project_name, command })
    }

    /// What pulling the selected image runs: `registry/project:tag` for its
    /// first tag, and the references of its other tags; fails when the
    /// project has no registry, then when the image is a local one, then when
    /// it has no tag.
    pub fn pull_plan(&self) -> (r: Result<PullPlan, ActionError>)
        requires
            image_selected(*self),
        ensures
            match pull_result(*self) {
                Err(e) => r == Err::<PullPlan, ActionError>(e),
                Ok((i, rt)) => r matches Ok(plan) && plan.image@ == i && plan.retags@.map_values(|u: String| u@)
                    == rt,
            },
    {
        let registry = match self.try_get_selected_registry() {
            Ok(r) => r,
            Err(_) => {
                return Err(ActionError::NoRegistry);
            },
        };
        let project = self.selected_project();
        let image = self.selected_image();
        let remote_image = match image {
            Image::Remote(r) => r,
            Image::Local(_) => {
                return Err(ActionError::NotRemote);
            },
        };
        if remote_image.tags.len() == 0 {
            return Err(ActionError::Untagged);
        }
        proof {
            assert(remote_image.tags@.len() > 0);
        }
        let base = project_url(registry.as_str(), project.name.as_str());
        let urls = tag_urls(base.as_str(), &remote_image.tags);
        assert(urls@.map_values(|u: String| u@).len() == urls@.len());
        let mut retags: Vec<String> = Vec::new();
        let mut i: usize = 1;
        while i < urls.len()
            invariant
                1 <= i <= urls@.len(),
                retags@.len() == i - 1,
                forall|j: int| 0 <= j < i - 1 ==> (#[trigger] retags@[j])@ == urls@[j + 1]@,
            decreases urls.len() - i,
        {
            retags.push(urls[i].clone());
            i = i + 1;
        }
        proof {
            let tv = remote_image.tags@;
            assert(urls@.map_values(|u: String| u@)[0] == urls@[0]@);
            let rv = retags@.map_values(|u: String| u@);
            let uv = urls@.map_values(|u: String| u@);
            let want = tag_references(base@, tv.drop_first());
            assert(rv.len() == want.len());
            assert forall|j: int| 0 <= j < rv.len() implies #[trigger] rv[j] == want[j] by {
                assert(uv[j + 1] == urls@[j + 1]@);
                assert(want[j] == tag_reference(base@, tv[j + 1]));
                assert(rv[j] == retags@[j]@);
            }
            assert(retags@.map_values(|u: String| u@) =~= tag_references(base@, tv.drop_first()));
        }
        let image_ref = urls[0].clone();
        Ok(PullPlan { image: image_ref, retags })
    }

    /// What pushing the selected image runs: its id, and
    /// `registry/project:tag` for each of its tags; fails when the image is
    /// not a local one, then when the project has no registry.
    pub fn push_plan(&self) -> (r: Result<PushPlan, ActionError>)
        requires
            image_selected(*self),
        ensures
            match push_result(*self) {
                Err(e) => r == Err::<PushPlan, ActionError>(e),
                Ok((i, urls)) => r matches Ok(plan) && plan.id@ == i && plan.tag_urls@.map_values(|u: String| u@)
                    == urls,
            },
    {
        let project = self.selected_project();
        let image = match self.selected_image() {
            Image::Local(l) => l,
            Image::Remote(_) => {
                return Err(ActionError::NotLocal);
            },
        };
        let id = encode_hex(&image.id);
        let reg = match self.selected_registry() {
            Some(r) => r,
            None => {
                return Err(ActionError::NoRegistry);
            },
        };
        let base = project_url(reg.as_str(), project.name.as_str());
        let urls = tag_urls(base.as_str(), &image.tags);
        Ok(PushPlan { id, tag_urls: urls })
    }

    /// Positions, in the selected project, of the local images whose digest
    /// the store lists for the project's registry; none when the store lists
    /// no digests for it.
    pub fn prune_indices(&self) -> (r: Vec<usize>)
        requires
            project_selected(*self),
        ensures
            ({
                let p = selected_project_of(*self);
                let digests = self.store.project_registry_digests@;
                &&& forall|a: int, b: int| 0 <= a < b < r@.len() ==> r@[a] < r@[b]
                &&& forall|k: int| 0 <= k < r@.len() ==> r@[k] < p.images@.len()
                &&& forall|j: int|
                    0 <= j < p.images@.len() ==> (r@.contains(j as usize) <==> digests.dom().contains(p.name@)
                        && prunable(#[trigger] p.images@[j], digests[p.name@]@))
                &&& r@ == if digests.dom().contains(p.name@) {
                    prunable_positions(p.images@, digests[p.name@]@, p.images@.len())
                } else {
                    Seq::empty()
                }
            }),
    {
        let project = self.selected_project();
        let mut r: Vec<usize> = Vec::new();
        let digests = match self.store.project_registry_digests.get(project.name.as_str()) {
            Some(d) => d,
            None => {
                return r;
            },
        };
        let mut i: usize = 0;
        while i < project.images.len()
            invariant
                i <= project.images@.len(),
                forall|a: int, b: int| 0 <= a < b < r@.len() ==> r@[a] < r@[b],
                forall|k: int| 0 <= k < r@.len() ==> r@[k] < i,
                forall|j: int| 0 <= j < i ==> (r@.contains(j as usize) <==> prunable(#[trigger] project.images@[j], digests@)),
                r@ == prunable_positions(project.images@, digests@, i as nat),
            decreases project.images.len() - i,
        {
            let take = match &project.images[i] {
                Image::Local(l) => match &l.digest {
                    Some(d) => digests_contain(digests, d),
                    None => false,
                },
                Image::Remote(_) => false,
            };
            let ghost before = r@;
            if take {
                r.push(i);
            }
            proof {
                assert forall|j: int| 0 <= j < i + 1 implies (r@.contains(j as usize) <==> prunable(#[trigger] project.images@[j], digests@)) by {
                    if j < i {
                        if r@.contains(j as usize) {
                            let k = choose|k: int| 0 <= k < r@.len() && r@[k] == j as usize;
                            if take && k == before.len() {
                            } else {
                                assert(before[k] == j as usize);
                            }
                        }
                        if before.contains(j as usize) {
                            let k = choose|k: int| 0 <= k < before.len() && before[k] == j as usize;
                            assert(r@[k] == j as usize);
                        }
                    } else {
                        if take {
                            assert(r@[before.len() as int] == i);
                        } else {
                            if r@.contains(j as usize) {
                                let k = choose|k: int| 0 <= k < r@.len() && r@[k] == j as usize;
                                assert(before[k] < i);
                            }
                        }
                    }
                }
            }
            i = i + 1;
        }
        r
    }
}

} // verus!
