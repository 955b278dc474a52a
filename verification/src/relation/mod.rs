//! Where an image goes when it is pushed to a registry.

use vstd::prelude::*;
use crate::image::local::LocalImage;
use crate::image::tags::TagSet;
use crate::project::{Project, ProjectError, last_segment};
use crate::text::concat_text;
use crate::utils::{encode_hex, hex_lower};

verus! {

/// `base:tag`, the reference of one tag of an image.
pub open spec fn tag_reference(base: Seq<char>, tag: Seq<char>) -> Seq<char> {
    base + seq![':'] + tag
}

/// `registry/project`, where a project's images live in a registry.
pub open spec fn project_reference(registry: Seq<char>, project: Seq<char>) -> Seq<char> {
    registry + seq!['/'] + project
}

/// The reference of each tag, in the order of the tags.
pub open spec fn tag_references(base: Seq<char>, tags: Seq<Seq<char>>) -> Seq<Seq<char>> {
    tags.map_values(|t: Seq<char>| tag_reference(base, t))
}

/// `base:tag` for each of `tags`, in their order.
pub fn tag_urls(base: &str, tags: &TagSet) -> (urls: Vec<String>)
    ensures
        urls@.map_values(|u: String| u@) == tag_references(base@, tags@),
{
    let with_colon = concat_text(base, ":");
    proof {
        reveal_strlit(":");
    }
    let mut urls: Vec<String> = Vec::new();
    let mut i: usize = 0;
    while i < tags.len()
        invariant
            i <= tags@.len(),
            with_colon@ == base@ + seq![':'],
            urls@.len() == i,
            forall|j: int| 0 <= j < i ==> (#[trigger] urls@[j])@ == tag_reference(base@, tags@[j]),
        decreases tags@.len() - i,
    {
        let url = concat_text(with_colon.as_str(), tags.get(i).as_str());
        urls.push(url);
        i = i + 1;
    }
    assert(urls@.map_values(|u: String| u@) =~= tag_references(base@, tags@));
    urls
}

/// `registry/project`.
pub fn project_url(registry: &str, project: &str) -> (url: String)
    ensures
        url@ == project_reference(registry@, project@),
{
    proof {
        reveal_strlit("/");
    }
    let with_slash = concat_text(registry, "/");
    concat_text(with_slash.as_str(), project)
}

/// What pushing a local image to `reg` does: the image's id in hexadecimal
/// (the source of each tag) and `reg/project:tag` for each of its tags, the
/// project being the last segment of its repository.
pub fn push(img: &LocalImage, reg: &str) -> (r: Result<(String, Vec<String>), ProjectError>)
    ensures
        r matches Ok((id, urls)) && id@ == hex_lower(img.id@) && urls@.map_values(|u: String| u@)
            == tag_references(project_reference(reg@, last_segment(img.repository@)), img.tags@),
{
    let id_str = encode_hex(&img.id);
    let project_name = match Project::get_project_name(img.repository.as_str()) {
        Ok(n) => n,
        Err(e) => {
            return Err(e);
        },
    };
    let base = project_url(reg, project_name);
    let urls = tag_urls(base.as_str(), &img.tags);
    Ok((id_str, urls))
}

} // verus!
