//! The list of the selected project's images.

use vstd::prelude::*;
use crate::image::Image;
use crate::image::local::LocalImage;
use crate::image::prelude::{Digest, Id, hash_copy, hash_eq};
use crate::image::remote::RemoteImage;
use crate::image::tags::TagSet;
use crate::text::{join, joined};
use crate::tui::actions::Action;
use crate::tui::component::Component;
use crate::tui::config::matched_action;
use crate::tui::keys::{Event, KeyEvent};
use crate::tui::state::{AppState, project_selected, selected_project_of};
use crate::tui::widgets::focusable::{Color, Style, plain_style};
use crate::tui::widgets::span::{Span, colored, colored_span, plain_span, spans_view};
use crate::utils::{encode_hex, hex_lower};

verus! {

/// What a row of the image list shows of an image.
pub struct ImageListRow {
    pub id: Option<Id>,
    pub digest: Option<Digest>,
    pub tags: TagSet,
}

/// A digest or identifier in hexadecimal, or `-` when there is none.
pub open spec fn hex_or_dash(h: Option<[u8; 32]>) -> Seq<char> {
    match h {
        Some(x) => hex_lower(x@),
        None => "-"@,
    }
}

/// The spans of a row: the identifier in light green, the digest in light
/// yellow, then the tags joined by `, `.
pub open spec fn row_spans_view(row: ImageListRow) -> Seq<(Seq<char>, Style)> {
    seq![
        (hex_or_dash(row.id), colored(Color::LightGreen)),
        (hex_or_dash(row.digest), colored(Color::LightYellow)),
        (joined(row.tags@, ", "@), plain_style()),
    ]
}

/// The mark of a yes-or-no column: a light green tick, or a red cross.
pub open spec fn check_view(checked: bool) -> (Seq<char>, Style) {
    if checked {
        ("\u{2713}"@, colored(Color::LightGreen))
    } else {
        ("\u{2a2f}"@, colored(Color::Red))
    }
}

/// The row of an image.
pub open spec fn image_row(img: Image) -> ImageListRow {
    match img {
        Image::Local(l) => ImageListRow { id: Some(l.id), digest: l.digest, tags: l.tags },
        Image::Remote(r) => ImageListRow { id: None, digest: Some(r.digest), tags: r.tags },
    }
}

/// Whether the store lists, for the selected project, an image with digest
/// `d`.
pub open spec fn known_remotely(s: AppState, d: Option<Digest>) -> bool {
    let remote = s.store.project_remote_images@;
    let n = selected_project_of(s).name@;
    &&& d is Some
    &&& remote.dom().contains(n)
    &&& exists|k: int| 0 <= k < remote[n]@.len() && (#[trigger] remote[n]@[k]).digest == d->0
}

/// The local mark of an image is the light green tick exactly when the image
/// is a local one; the identifier (`-` for a remote image), the digest (`-`
/// for a local image without one) and the tags joined by `, ` follow the two
/// marks.
pub proof fn lemma_image_line_columns(s: AppState, img: Image)
    ensures
        image_line_view(s, img).len() == 5,
        image_line_view(s, img)[0] == check_view(true) <==> img is Local,
        image_line_view(s, img)[2].0 == match img {
            Image::Local(l) => hex_lower(l.id@),
            Image::Remote(_) => "-"@,
        },
        image_line_view(s, img)[3].0 == match img {
            Image::Local(l) => match l.digest {
                Some(d) => hex_lower(d@),
                None => "-"@,
            },
            Image::Remote(r) => hex_lower(r.digest@),
        },
        image_line_view(s, img)[4].0 == match img {
            Image::Local(l) => joined(l.tags@, ", "@),
            Image::Remote(r) => joined(r.tags@, ", "@),
        },
{
    assert(colored(Color::LightGreen) != colored(Color::Red));
}

/// The remote mark of an image is the light green tick exactly when the
/// store lists, for the selected project, an image at any position whose
/// digest is the image's; otherwise it is the red cross.
pub proof fn lemma_remote_mark(s: AppState, img: Image)
    ensures
        image_line_view(s, img)[1] == check_view(true) || image_line_view(s, img)[1] == check_view(false),
        check_view(true) != check_view(false),
        image_line_view(s, img)[1] == check_view(true) <==> {
            &&& s.store.project_remote_images@.dom().contains(selected_project_of(s).name@)
            &&& exists|k: int|
                #![trigger s.store.project_remote_images@[selected_project_of(s).name@]@[k]]
                0 <= k < s.store.project_remote_images@[selected_project_of(s).name@]@.len() && match img {
                    Image::Local(l) => l.digest
                        == Some(s.store.project_remote_images@[selected_project_of(s).name@]@[k].digest),
                    Image::Remote(r) => r.digest
                        == s.store.project_remote_images@[selected_project_of(s).name@]@[k].digest,
                }
        },
{
    assert(colored(Color::LightGreen) != colored(Color::Red));
    assert(check_view(true) != check_view(false));
}

/// The spans shown for image `img` of the selected project: whether it is
/// local, whether the store knows it remotely, then its row.
pub open spec fn image_line_view(s: AppState, img: Image) -> Seq<(Seq<char>, Style)> {
    seq![check_view(img is Local), check_view(known_remotely(s, image_row(img).digest))] + row_spans_view(
        image_row(img),
    )
}

fn copy_hash_option(h: &Option<[u8; 32]>) -> (r: Option<[u8; 32]>)
    ensures
        r == *h,
{
    match h {
        Some(x) => Some(hash_copy(x)),
        None => None,
    }
}

impl ImageListRow {
    /// The row of a local image.
    pub fn from_local(image: &LocalImage) -> (r: ImageListRow)
        ensures
            r.id == Some(image.id),
            r.digest == image.digest,
            r.tags@ == image.tags@,
    {
        ImageListRow {
            id: Some(hash_copy(&image.id)),
            digest: copy_hash_option(&image.digest),
            tags: image.tags.duplicate(),
        }
    }

    /// The row of a remote image.
    pub fn from_remote(image: &RemoteImage) -> (r: ImageListRow)
        ensures
            r.id is None,
            r.digest == Some(image.digest),
            r.tags@ == image.tags@,
    {
        ImageListRow { id: None, digest: Some(hash_copy(&image.digest)), tags: image.tags.duplicate() }
    }

    /// The row of an image.
    pub fn from_image(image: &Image) -> (r: ImageListRow)
        ensures
            r.id == image_row(*image).id,
            r.digest == image_row(*image).digest,
            r.tags@ == image_row(*image).tags@,
    {
        match image {
            Image::Local(l) => ImageListRow::from_local(l),
            Image::Remote(r) => ImageListRow::from_remote(r),
        }
    }

    /// The spans of the row.
    pub fn spans(&self) -> (v: Vec<Span>)
        ensures
            spans_view(v@) == row_spans_view(*self),
    {
        let id = match &self.id {
            Some(x) => encode_hex(x),
            None => "-".to_owned(),
        };
        let digest = match &self.digest {
            Some(x) => encode_hex(x),
            None => "-".to_owned(),
        };
        let tags = join(&self.tags.to_vec(), ", ");
        let mut v: Vec<Span> = Vec::new();
        v.push(colored_span(id, Color::LightGreen));
        v.push(colored_span(digest, Color::LightYellow));
        v.push(plain_span(tags));
        assert(spans_view(v@) =~= row_spans_view(*self));
        v
    }
}

/// The mark of a yes-or-no column: a light green tick, or a red cross.
pub fn check_span(checked: bool) -> (s: Span)
    ensures
        s@ == check_view(checked),
{
    if checked {
        colored_span("\u{2713}".to_owned(), Color::LightGreen)
    } else {
        colored_span("\u{2a2f}".to_owned(), Color::Red)
    }
}

/// Whether one of `images` has digest `d`.
fn any_with_digest(images: &Vec<RemoteImage>, d: &Digest) -> (b: bool)
    ensures
        b == exists|k: int| 0 <= k < images@.len() && (#[trigger] images@[k]).digest == *d,
{
    let mut i: usize = 0;
    while i < images.len()
        invariant
            i <= images@.len(),
            forall|k: int| 0 <= k < i ==> (#[trigger] images@[k]).digest != *d,
        decreases images.len() - i,
    {
        if hash_eq(&images[i].digest, d) {
            assert(images@[i as int].digest == *d);
            return true;
        }
        i = i + 1;
    }
    false
}

/// The list of the selected project's images.
pub struct ImageList {}

/// The actions the image list answers, in the order they are tried.
pub open spec fn image_list_actions() -> Seq<Action> {
    seq![Action::FocusProjects, Action::DeleteImage, Action::PushImage]
}

impl ImageList {
    /// The lines of the list, one for each image of the selected project.
    pub fn lines(&self, state: &AppState) -> (rows: Vec<Vec<Span>>)
        requires
            project_selected(*state),
        ensures
            rows@.len() == selected_project_of(*state).images@.len(),
            forall|i: int|
                0 <= i < rows@.len() ==> spans_view(#[trigger] rows@[i]@) == image_line_view(
                    *state,
                    selected_project_of(*state).images@[i],
                ),
    {
        let project = state.selected_project();
        let remote_images = state.store.project_remote_images.get(project.name.as_str());
        let mut rows: Vec<Vec<Span>> = Vec::new();
        let mut i: usize = 0;
        while i < project.images.len()
            invariant
                i <= project.images@.len(),
                *project == selected_project_of(*state),
                remote_images is Some <==> state.store.project_remote_images@.dom().contains(project.name@),
                remote_images matches Some(v) ==> v == state.store.project_remote_images@[project.name@],
                rows@.len() == i,
                forall|j: int|
                    0 <= j < i ==> spans_view(#[trigger] rows@[j]@) == image_line_view(*state, project.images@[j]),
            decreases project.images.len() - i,
        {
            let img = &project.images[i];
            let row = ImageListRow::from_image(img);
            let remote = match (&row.digest, remote_images) {
                (Some(d), Some(v)) => any_with_digest(v, d),
                _ => false,
            };
            let local = match img {
                Image::Local(_) => true,
                Image::Remote(_) => false,
            };
            let mut line: Vec<Span> = Vec::new();
            line.push(check_span(local));
            line.push(check_span(remote));
            let rest = row.spans();
            let mut k: usize = 0;
            while k < rest.len()
                invariant
                    k <= rest@.len(),
                    line@.len() == 2 + k,
                    forall|m: int| 0 <= m < 2 ==> (#[trigger] line@[m])@ == seq![check_view(local), check_view(remote)][m],
                    forall|m: int| 2 <= m < 2 + k ==> (#[trigger] line@[m])@ == rest@[m - 2]@,
                decreases rest.len() - k,
            {
                let s = Span { content: rest[k].content.clone(), style: rest[k].style };
                line.push(s);
                k = k + 1;
            }
            proof {
                let want = image_line_view(*state, *img);
                assert(image_row(*img).digest == row.digest);
                assert(image_row(*img).tags@ == row.tags@);
                assert(row_spans_view(row) == row_spans_view(image_row(*img)));
                assert(remote == known_remotely(*state, image_row(*img).digest));
                assert(spans_view(line@) =~= want) by {
                    assert forall|m: int| 0 <= m < line@.len() implies spans_view(line@)[m] == want[m] by {
                        if m >= 2 {
                            assert(line@[m]@ == rest@[m - 2]@);
                            assert(spans_view(rest@)[m - 2] == rest@[m - 2]@);
                        }
                    }
                }
            }
            rows.push(line);
            i = i + 1;
        }
        rows
    }
}

impl Component for ImageList {
    open spec fn key_action(&self, ke: KeyEvent, state: AppState) -> Action {
        matched_action(state.config.keymaps@, ke, image_list_actions())
    }

    open spec fn event_action(&self, event: Event, state: AppState) -> Action {
        match event {
            Event::Key(ke) => matched_action(state.config.keymaps@, ke, image_list_actions()),
            Event::Other => Action::Noop,
        }
    }

    /// Focus the projects, delete the image, or push it, as the bindings say.
    fn handle_key_events(&mut self, ke: &KeyEvent, state: &AppState) -> (a: Action) {
        let actions = vec![Action::FocusProjects, Action::DeleteImage, Action::PushImage];
        assert(actions@ == image_list_actions());
        state.config.match_actions(ke, actions.as_slice())
    }

    fn handle_events(&mut self, event: &Event, state: &AppState) -> (a: Action) {
        match event {
            Event::Key(ke) => self.handle_key_events(ke, state),
            Event::Other => Action::Noop,
        }
    }
}

} // verus!
