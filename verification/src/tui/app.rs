//! The interface's loop, as decisions: which action an event asks for, what
//! an action changes and what it asks the outside to run, and what the
//! outcome of such a run changes. The loop itself, the terminal and the
//! commands stay outside; they hand events and outcomes in here.

use vstd::prelude::*;
use vstd::utf8::encode_utf8;
use crate::image::Image;
use crate::image::local::LocalImage;
use crate::image::prelude::{ParseImageError, parse_image_error_text};
use crate::image::remote::{RawRemoteImage, RemoteImage};
use crate::project::{Project, merges_all};
use crate::search::{first_match, lemma_first_match};
use crate::store::{Store, StoreError, store_error_text};
use crate::text::concat_text;
use crate::tui::actions::Action;
use crate::tui::commands::{
    ActionError,
    DeletePlan,
    FetchPlan,
    PullPlan,
    PushPlan,
    action_error_text,
    delete_result,
    fetch_result,
    prunable,
    prunable_positions,
    pull_result,
    push_result,
    selected_image_of,
};
use crate::tui::component::Component;
use crate::tui::config::{CommandBehaviour, Config};
use crate::tui::external_command::{CommandError, command_error_text};
use crate::tui::keys::Event;
use crate::tui::state::{
    AppState,
    Focus,
    PopupVariant,
    StateError,
    image_selected,
    name_is,
    project_selected,
    selected_project_of,
    state_error_text,
    synced_with_store,
};
use crate::tui::table::TableState;
use crate::tui::transitions::{
    next_spinner_frame,
    with_error_shown,
    with_popup_closed,
    with_selection_down,
    with_selection_up,
};
use crate::tui::widgets::{RootWidget, root_event_action};
use crate::utils::{digest_text_panics, sha_parse_result, sha_text_panics};

verus! {

/// A local image to delete, and the command that deletes it.
pub struct Deletion {
    pub plan: DeletePlan,
    pub image: LocalImage,
}

/// What an action asks the outside to run.
pub enum Effect {
    /// Nothing to run.
    Nothing,
    /// Run each delete command in turn, then drop the image from the store.
    Delete { deletions: Vec<Deletion>, interactive: bool },
    /// Run the listing command, then record the images it lists.
    Fetch { listing: FetchPlan },
    /// Pull the image and tag it with its other references, then list the
    /// local images again.
    Pull { pull: PullPlan, interactive: bool },
    /// Tag the image with each reference and push it, then list the local
    /// images again and record the pushed image.
    Push { push: PushPlan, project_name: String, interactive: bool },
}

/// Why a step of the loop failed.
pub enum StepError {
    Action(ActionError),
    Image(ParseImageError),
    Store(StoreError),
    State(StateError),
    Command(CommandError),
    /// The listing command of a fetch could not run, or failed.
    FetchCommand,
    /// A fetch's listing is not the expected JSON; holds the listing.
    FetchOutput(String),
    /// An entry of a fetch's listing does not convert.
    FetchImage(ParseImageError),
}

/// The text of a step error, as the error popup shows it.
pub open spec fn step_error_text(e: StepError) -> Seq<char> {
    match e {
        StepError::Action(a) => action_error_text(a),
        StepError::Image(i) => parse_image_error_text(i),
        StepError::Store(s) => store_error_text(s),
        StepError::State(s) => state_error_text(s),
        StepError::Command(c) => command_error_text(c),
        StepError::FetchCommand => "Failed to run list images command"@,
        StepError::FetchOutput(out) => "Failed parsing list images command result: \""@ + out@ + "\""@,
        StepError::FetchImage(_) => "Failed to parse remote images from the list images command"@,
    }
}

impl StepError {
    /// What the error says.
    pub fn message(&self) -> (m: String)
        ensures
            m@ == step_error_text(*self),
    {
        match self {
            StepError::Action(a) => a.message(),
            StepError::Image(i) => i.message(),
            StepError::Store(s) => s.message(),
            StepError::State(s) => s.message(),
            StepError::Command(c) => c.message(),
            StepError::FetchCommand => "Failed to run list images command".to_owned(),
            StepError::FetchOutput(out) => concat_text(
                concat_text("Failed parsing list images command result: \"", out.as_str()).as_str(),
                "\"",
            ),
            StepError::FetchImage(_) => "Failed to parse remote images from the list images command".to_owned(),
        }
    }
}

/// The selection that action `a` reads exists.
pub open spec fn action_ready(s: AppState, a: Action) -> bool {
    match a {
        Action::PushImage | Action::PullImage | Action::DeleteImage => image_selected(s),
        Action::FetchImages | Action::PruneImages => project_selected(s),
        _ => true,
    }
}

/// `a` holds what `b` holds, field for field.
pub open spec fn local_copy_of(a: LocalImage, b: LocalImage) -> bool {
    &&& a.containers == b.containers
    &&& a.digest == b.digest
    &&& a.id == b.id
    &&& a.tags@ == b.tags@
    &&& a.created_at == b.created_at
    &&& a.created_since == b.created_since
    &&& a.repository == b.repository
    &&& a.shared_size == b.shared_size
    &&& a.size == b.size
    &&& a.unique_size == b.unique_size
}

/// `new` is `old` with `msg` loading when `background` holds, and unchanged
/// otherwise.
pub open spec fn loading_set(old: AppState, new: AppState, background: bool, msg: Seq<char>) -> bool {
    &&& new == (AppState { loading: new.loading, ..old })
    &&& background ==> (new.loading matches Some(m) && m@ == msg)
    &&& !background ==> new.loading == old.loading
}

/// `d` deletes local image `img` as `delete_result` says.
pub open spec fn deletion_of(s: AppState, d: Deletion, img: LocalImage) -> bool {
    &&& delete_result(s, img) matches Ok((n, c)) && d.plan.project_name@ == n && d.plan.command@ == c
    &&& local_copy_of(d.image, img)
}

/// Shown while images are deleted in the background.
pub open spec fn deleting_text() -> Seq<char> {
    "Deleting image..."@
}

/// Shown while a project's remote images are fetched.
pub open spec fn fetching_text() -> Seq<char> {
    "Fetching images..."@
}

/// Shown while an image is pulled in the background.
pub open spec fn pulling_text() -> Seq<char> {
    "Pulling image"@
}

/// Shown while an image is pushed in the background.
pub open spec fn pushing_text() -> Seq<char> {
    "Pushing image"@
}

/// Deleting the selected image: it must be a local one; then as
/// `delete_result` says, in the background unless configured interactive.
pub open spec fn delete_outcome(s: AppState, s2: AppState, r: Result<Effect, ActionError>) -> bool {
    let background = s.config.command_behaviours.delete_image == CommandBehaviour::Async;
    match selected_image_of(s) {
        Image::Remote(_) => r == Err::<Effect, ActionError>(ActionError::NotLocal) && s2 == s,
        Image::Local(l) => match delete_result(s, l) {
            Err(e) => r == Err::<Effect, ActionError>(e) && s2 == s,
            Ok(_) => {
                &&& r matches Ok(Effect::Delete { deletions, interactive })
                &&& interactive == !background
                &&& deletions@.len() == 1
                &&& deletion_of(s, deletions@[0], l)
                &&& loading_set(s, s2, background, deleting_text())
            },
        },
    }
}

/// The positions of the selected project's images that pruning deletes: the
/// local ones whose digest the store lists for the project.
pub open spec fn prune_targets(s: AppState) -> Seq<usize> {
    let p = selected_project_of(s);
    let ds = s.store.project_registry_digests@;
    if ds.dom().contains(p.name@) {
        prunable_positions(p.images@, ds[p.name@]@, p.images@.len())
    } else {
        Seq::empty()
    }
}

/// Pruning the selected project: one deletion for each target, in order;
/// fails when there is a target and the registry's commands are not
/// configured.
pub open spec fn prune_outcome(s: AppState, s2: AppState, r: Result<Effect, ActionError>) -> bool {
    let background = s.config.command_behaviours.delete_image == CommandBehaviour::Async;
    let targets = prune_targets(s);
    let imgs = selected_project_of(s).images@;
    if targets.len() > 0 && crate::tui::commands::selected_commands_of(s) is None {
        r == Err::<Effect, ActionError>(ActionError::NoRegistryCommands) && s2 == s
    } else {
        &&& r matches Ok(Effect::Delete { deletions, interactive })
        &&& interactive == !background
        &&& deletions@.len() == targets.len()
        &&& forall|k: int|
            0 <= k < targets.len() ==> deletion_of(s, #[trigger] deletions@[k], imgs[targets[k] as int]->Local_0)
        &&& loading_set(s, s2, background && targets.len() > 0, deleting_text())
    }
}

/// Fetching the selected project's remote images: the listing command, as
/// `fetch_result` says, with the fetch shown as loading.
pub open spec fn fetch_outcome(s: AppState, s2: AppState, r: Result<Effect, ActionError>) -> bool {
    match fetch_result(s) {
        Err(e) => r == Err::<Effect, ActionError>(e) && s2 == s,
        Ok(c) => {
            &&& r matches Ok(Effect::Fetch { listing })
            &&& listing.project_name == selected_project_of(s).name
            &&& listing.command@ == c
            &&& loading_set(s, s2, true, fetching_text())
        },
    }
}

/// Pulling the selected image, as `pull_result` says, in the background
/// unless configured interactive.
pub open spec fn pull_outcome(s: AppState, s2: AppState, r: Result<Effect, ActionError>) -> bool {
    let background = s.config.command_behaviours.pull_image == CommandBehaviour::Async;
    match pull_result(s) {
        Err(e) => r == Err::<Effect, ActionError>(e) && s2 == s,
        Ok((i, rt)) => {
            &&& r matches Ok(Effect::Pull { pull, interactive })
            &&& pull.image@ == i
            &&& pull.retags@.map_values(|u: String| u@) == rt
            &&& interactive == !background
            &&& loading_set(s, s2, background, pulling_text())
        },
    }
}

/// Pushing the selected image, as `push_result` says, in the background
/// unless configured interactive; the loading shows only when there is a tag
/// to push.
pub open spec fn push_outcome(s: AppState, s2: AppState, r: Result<Effect, ActionError>) -> bool {
    let background = s.config.command_behaviours.push_image == CommandBehaviour::Async;
    match push_result(s) {
        Err(e) => r == Err::<Effect, ActionError>(e) && s2 == s,
        Ok((i, urls)) => {
            &&& r matches Ok(Effect::Push { push, project_name, interactive })
            &&& push.id@ == i
            &&& push.tag_urls@.map_values(|u: String| u@) == urls
            &&& project_name == selected_project_of(s).name
            &&& interactive == !background
            &&& loading_set(s, s2, background && urls.len() > 0, pushing_text())
        },
    }
}

/// What action `a` does to state `s`, giving `s2` and the result `r`.
pub open spec fn action_outcome(s: AppState, s2: AppState, a: Action, r: Result<Effect, ActionError>) -> bool {
    match a {
        Action::SelectUp => r matches Ok(Effect::Nothing) && s2 == with_selection_up(s),
        Action::SelectDown => r matches Ok(Effect::Nothing) && s2 == with_selection_down(s),
        Action::FocusImages => r matches Ok(Effect::Nothing) && s2 == (AppState {
            focus: Focus::Images,
            ..s
        }),
        Action::FocusProjects => r matches Ok(Effect::Nothing) && s2 == (AppState {
            focus: Focus::Projects,
            ..s
        }),
        Action::ClosePopup => r matches Ok(Effect::Nothing) && s2 == with_popup_closed(s),
        Action::Quit => r matches Ok(Effect::Nothing) && s2 == (AppState { exit: true, ..s }),
        Action::Noop => r matches Ok(Effect::Nothing) && s2 == s,
        Action::DeleteImage => delete_outcome(s, s2, r),
        Action::PruneImages => prune_outcome(s, s2, r),
        Action::FetchImages => fetch_outcome(s, s2, r),
        Action::PullImage => pull_outcome(s, s2, r),
        Action::PushImage => push_outcome(s, s2, r),
    }
}

/// An action that fails changes nothing in the state.
pub proof fn lemma_failed_action_changes_nothing(s: AppState, s2: AppState, a: Action, r: Result<Effect, ActionError>)
    requires
        action_outcome(s, s2, a, r),
        r is Err,
    ensures
        s2 == s,
{
}

/// The positions that `prunable_positions` gives are below `n` and hold
/// prunable images.
pub proof fn lemma_prunable_positions(imgs: Seq<Image>, ds: Seq<crate::image::prelude::Digest>, n: nat)
    requires
        n <= imgs.len(),
        n <= usize::MAX,
    ensures
        forall|k: int|
            0 <= k < prunable_positions(imgs, ds, n).len() ==> (#[trigger] prunable_positions(imgs, ds, n)[k]) < n
                && prunable(imgs[prunable_positions(imgs, ds, n)[k] as int], ds),
    decreases n,
{
    if n > 0 {
        lemma_prunable_positions(imgs, ds, (n - 1) as nat);
        let prev = prunable_positions(imgs, ds, (n - 1) as nat);
        let cur = prunable_positions(imgs, ds, n);
        assert(cur == if prunable(imgs[n - 1], ds) {
            prev.push((n - 1) as usize)
        } else {
            prev
        });
        assert forall|k: int| 0 <= k < cur.len() implies (#[trigger] cur[k]) < n && prunable(imgs[cur[k] as int], ds) by {
            if k < prev.len() {
                assert(cur[k] == prev[k]);
            }
        }
    }
}

fn with_loading(state: &mut AppState, msg: &str)
    ensures
        *final(state) == (AppState { loading: final(state).loading, ..*old(state) }),
        final(state).loading matches Some(m) && m@ == msg@,
{
    state.loading = Some(msg.to_owned());
}

impl AppState {
    /// Whether the selection that action `a` reads exists.
    pub fn is_ready_for(&self, a: Action) -> (b: bool)
        ensures
            b == action_ready(*self, a),
    {
        let project_ok = match self.project_table_state.selected() {
            Some(i) => i < self.projects.len(),
            None => false,
        };
        match a {
            Action::PushImage | Action::PullImage | Action::DeleteImage => {
                if !project_ok {
                    return false;
                }
                let p = self.selected_project();
                match self.image_table_state.selected() {
                    Some(i) => i < p.images.len(),
                    None => false,
                }
            },
            Action::FetchImages | Action::PruneImages => project_ok,
            _ => true,
        }
    }

    /// Deletes the selected image.
    fn delete_selected(&mut self) -> (r: Result<Effect, ActionError>)
        requires
            image_selected(*old(self)),
        ensures
            delete_outcome(*old(self), *final(self), r),
    {
        let image = match self.selected_image() {
            Image::Local(l) => l,
            Image::Remote(_) => {
                return Err(ActionError::NotLocal);
            },
        };
        let plan = match self.delete_image_command(image) {
            Ok(p) => p,
            Err(e) => {
                return Err(e);
            },
        };
        let deletion = Deletion { plan, image: image.duplicate() };
        let background = match self.config.command_behaviours.delete_image {
            CommandBehaviour::Async => true,
            CommandBehaviour::Interactive => false,
        };
        let mut deletions: Vec<Deletion> = Vec::new();
        deletions.push(deletion);
        if background {
            with_loading(self, "Deleting image...");
        }
        Ok(Effect::Delete { deletions, interactive: !background })
    }

    /// Deletes the selected project's images whose digest the store lists
    /// for the project.
    fn prune(&mut self) -> (r: Result<Effect, ActionError>)
        requires
            project_selected(*old(self)),
        ensures
            prune_outcome(*old(self), *final(self), r),
    {
        let targets = self.prune_indices();
        let ghost s = *self;
        let ghost imgs = selected_project_of(s).images@;
        proof {
            let p = selected_project_of(s);
            let ds = s.store.project_registry_digests@;
            assert(imgs.len() == p.images.len());
            if ds.dom().contains(p.name@) {
                lemma_prunable_positions(imgs, ds[p.name@]@, imgs.len());
            }
            assert(targets@ == prune_targets(s));
        }
        let mut deletions: Vec<Deletion> = Vec::new();
        let mut k: usize = 0;
        while k < targets.len()
            invariant
                *self == s,
                project_selected(s),
                imgs == selected_project_of(s).images@,
                targets@ == prune_targets(s),
                forall|m: int| 0 <= m < targets@.len() ==> (#[trigger] targets@[m]) < imgs.len() && prunable(
                    imgs[targets@[m] as int],
                    s.store.project_registry_digests@[selected_project_of(s).name@]@,
                ),
                k <= targets@.len(),
                deletions@.len() == k,
                forall|m: int|
                    0 <= m < k ==> deletion_of(s, #[trigger] deletions@[m], imgs[targets@[m] as int]->Local_0),
            decreases targets.len() - k,
        {
            let i = targets[k];
            assert(prunable(imgs[i as int], s.store.project_registry_digests@[selected_project_of(s).name@]@));
            let image = match &self.selected_project().images[i] {
                Image::Local(l) => l,
                Image::Remote(_) => {
                    assert(false);
                    return Err(ActionError::NotLocal);
                },
            };
            let plan = match self.delete_image_command(image) {
                Ok(p) => p,
                Err(e) => {
                    assert(image.digest is Some);
                    return Err(e);
                },
            };
            deletions.push(Deletion { plan, image: image.duplicate() });
            k = k + 1;
        }
        proof {
            if targets@.len() > 0 {
                assert(deletion_of(s, deletions@[0], imgs[targets@[0] as int]->Local_0));
            }
        }
        let background = match self.config.command_behaviours.delete_image {
            CommandBehaviour::Async => true,
            CommandBehaviour::Interactive => false,
        };
        if background && targets.len() > 0 {
            with_loading(self, "Deleting image...");
        }
        Ok(Effect::Delete { deletions, interactive: !background })
    }

    /// Fetches the selected project's remote images.
    fn fetch(&mut self) -> (r: Result<Effect, ActionError>)
        requires
            project_selected(*old(self)),
        ensures
            fetch_outcome(*old(self), *final(self), r),
    {
        let plan = match self.list_images_command() {
            Ok(p) => p,
            Err(e) => {
                return Err(e);
            },
        };
        with_loading(self, "Fetching images...");
        Ok(Effect::Fetch { listing: plan })
    }

    /// Pulls the selected image.
    fn pull(&mut self) -> (r: Result<Effect, ActionError>)
        requires
            image_selected(*old(self)),
        ensures
            pull_outcome(*old(self), *final(self), r),
    {
        let plan = match self.pull_plan() {
            Ok(p) => p,
            Err(e) => {
                return Err(e);
            },
        };
        let background = match self.config.command_behaviours.pull_image {
            CommandBehaviour::Async => true,
            CommandBehaviour::Interactive => false,
        };
        if background {
            with_loading(self, "Pulling image");
        }
        Ok(Effect::Pull { pull: plan, interactive: !background })
    }

    /// Pushes the selected image.
    fn push(&mut self) -> (r: Result<Effect, ActionError>)
        requires
            image_selected(*old(self)),
        ensures
            push_outcome(*old(self), *final(self), r),
    {
        let plan = match self.push_plan() {
            Ok(p) => p,
            Err(e) => {
                return Err(e);
            },
        };
        let project_name = self.selected_project().name.clone();
        let background = match self.config.command_behaviours.push_image {
            CommandBehaviour::Async => true,
            CommandBehaviour::Interactive => false,
        };
        assert(plan.tag_urls@.map_values(|u: String| u@).len() == plan.tag_urls@.len());
        if background && plan.tag_urls.len() > 0 {
            with_loading(self, "Pushing image");
        }
        Ok(Effect::Push { push: plan, project_name, interactive: !background })
    }

    /// Carries out action `a`: changes the state, and says what the outside
    /// has to run; an action that fails leaves the state as it was.
    pub fn apply_action(&mut self, a: Action) -> (r: Result<Effect, ActionError>)
        requires
            action_ready(*old(self), a),
        ensures
            action_outcome(*old(self), *final(self), a, r),
    {
        match a {
            Action::SelectUp => {
                self.select_up();
                Ok(Effect::Nothing)
            },
            Action::SelectDown => {
                self.select_down();
                Ok(Effect::Nothing)
            },
            Action::FocusImages => {
                self.focus_images();
                Ok(Effect::Nothing)
            },
            Action::FocusProjects => {
                self.focus_projects();
                Ok(Effect::Nothing)
            },
            Action::ClosePopup => {
                self.close_popup();
                Ok(Effect::Nothing)
            },
            Action::Quit => {
                self.quit();
                Ok(Effect::Nothing)
            },
            Action::Noop => Ok(Effect::Nothing),
            Action::DeleteImage => self.delete_selected(),
            Action::PruneImages => self.prune(),
            Action::FetchImages => self.fetch(),
            Action::PullImage => self.pull(),
            Action::PushImage => self.push(),
        }
    }
}

/// The condition that picks listing entries whose digest does not parse.
pub open spec fn digest_unparsed() -> spec_fn(RawRemoteImage) -> bool {
    |r: RawRemoteImage| sha_parse_result(encode_utf8(r.digest@)) is Err
}

/// The first entry of `raws` whose digest does not parse.
pub open spec fn first_unparsed(raws: Seq<RawRemoteImage>) -> int {
    first_match(raws, digest_unparsed())
}

/// Whether converting `raws` in order, stopping at the first failure, would
/// panic: the entry where it stops cuts a digest group.
pub open spec fn remote_listing_panics(raws: Seq<RawRemoteImage>) -> bool {
    let k = first_unparsed(raws);
    k < raws.len() && sha_text_panics(encode_utf8(raws[k].digest@))
}

/// `imgs` are `raws` converted: same tags, digests read from the text.
pub open spec fn parsed_remote_images(raws: Seq<RawRemoteImage>, imgs: Seq<RemoteImage>) -> bool {
    &&& imgs.len() == raws.len()
    &&& forall|i: int|
        0 <= i < raws.len() ==> sha_parse_result(encode_utf8(raws[i].digest@)) == Ok::<
            Seq<u8>,
            crate::utils::ShaParseError,
        >((#[trigger] imgs[i]).digest@) && imgs[i].tags@ == raws[i].tags@
}

/// What recording the remote images fetched for `name` does: the store
/// holds them as the project's images, nothing loads any more, and the first
/// project of that name records them; fails when no project has the name,
/// the store and loading changed all the same.
pub open spec fn fetched_recorded(
    s: AppState,
    s2: AppState,
    name: Seq<char>,
    raws: Seq<RawRemoteImage>,
    r: Result<(), StepError>,
) -> bool {
    let old_map = s.store.project_remote_images@;
    let new_map = s2.store.project_remote_images@;
    let ps = s.projects@;
    let k = first_match(ps, name_is(name));
    &&& s2 == (AppState { projects: s2.projects, store: s2.store, loading: None, ..s })
    &&& s2.store.project_registry_digests == s.store.project_registry_digests
    &&& new_map == old_map.insert(name, new_map[name])
    &&& parsed_remote_images(raws, new_map[name]@)
    &&& if k == ps.len() {
        &&& r matches Err(StepError::State(StateError::NotInState(n))) && n@ == name
        &&& s2.projects@ == ps
    } else {
        &&& r is Ok
        &&& s2.projects@.len() == ps.len()
        &&& s2.projects@[k].name == ps[k].name
        &&& merges_all(ps[k].images@, s2.projects@[k].images@, new_map[name]@)
        &&& forall|j: int| 0 <= j < ps.len() && j != k ==> s2.projects@[j] == ps[j]
    }
}

/// Some image of `imgs` carries the digest that `raw` lists.
pub open spec fn carries_listed_digest(imgs: Seq<Image>, raw: RawRemoteImage) -> bool {
    exists|j: int|
        0 <= j < imgs.len() && #[trigger] crate::image::remote::image_digest(imgs[j]) is Some
            && sha_parse_result(encode_utf8(raw.digest@)) == Ok::<Seq<u8>, crate::utils::ShaParseError>(
            crate::image::remote::image_digest(imgs[j])->0,
        )
}

/// After the images fetched for a project are recorded, the project shows
/// every one of them: some image carries each listed digest, and every image
/// it had keeps its place and its digest.
pub proof fn lemma_fetch_shows_every_image(s: AppState, s2: AppState, name: Seq<char>, raws: Seq<RawRemoteImage>)
    requires
        fetched_recorded(s, s2, name, raws, Ok(())),
    ensures
        ({
            let k = first_match(s.projects@, name_is(name));
            let old_imgs = s.projects@[k].images@;
            let new_imgs = s2.projects@[k].images@;
            &&& k < s.projects@.len()
            &&& forall|i: int| 0 <= i < raws.len() ==> carries_listed_digest(new_imgs, #[trigger] raws[i])
            &&& forall|j: int|
                0 <= j < old_imgs.len() ==> crate::image::remote::image_digest(#[trigger] new_imgs[j])
                    == crate::image::remote::image_digest(old_imgs[j])
        }),
{
    let k = first_match(s.projects@, name_is(name));
    crate::search::lemma_first_match_exists(s.projects@, name_is(name));
    let rs = s2.store.project_remote_images@[name]@;
    let old_imgs = s.projects@[k].images@;
    let new_imgs = s2.projects@[k].images@;
    crate::project::lemma_merges_all_digests(old_imgs, new_imgs, rs);
    assert forall|i: int| 0 <= i < raws.len() implies carries_listed_digest(new_imgs, #[trigger] raws[i]) by {
        let j = choose|j: int| 0 <= j < new_imgs.len() && crate::image::remote::image_digest(#[trigger] new_imgs[j])
            == Some(rs[i].digest@);
        assert(crate::image::remote::image_digest(new_imgs[j]) is Some);
    }
}

/// What finishing deletion `d` does: nothing loads any more when it ran in
/// the background; then the store forgets the project's images with the
/// deleted image's digest. Fails when the image has no digest, then when the
/// store has no image list for the project.
pub open spec fn deletion_finished(s: AppState, s2: AppState, d: Deletion, background: bool, r: Result<(), StepError>) -> bool {
    let s1 = if background {
        AppState { loading: None, ..s }
    } else {
        s
    };
    let old_map = s1.store.project_remote_images@;
    let new_map = s2.store.project_remote_images@;
    let n = d.plan.project_name@;
    match d.image.digest {
        None => {
            &&& r matches Err(StepError::Image(ParseImageError::Digest(t)))
                && t@ == crate::image::local::none_marker()
            &&& s2 == s1
        },
        Some(digest) => {
            &&& s2 == (AppState { store: s2.store, ..s1 })
            &&& s2.store.project_registry_digests == s1.store.project_registry_digests
            &&& if old_map.dom().contains(n) {
                &&& r is Ok
                &&& new_map == old_map.insert(n, new_map[n])
                &&& new_map[n]@ == old_map[n]@.filter(crate::store::remote_digest_differs(digest@))
            } else {
                &&& r == Err::<(), StepError>(StepError::Store(StoreError::ProjectNotFound))
                &&& s2.store.project_remote_images == s1.store.project_remote_images
            }
        },
    }
}

/// What recording the pushed image does: the store adds the selected image,
/// as a remote image, to the list of `name`; then nothing loads any more when
/// it ran in the background. Fails when the image is a local one without
/// digest, then when the store has no image list for `name`; the state is
/// then as it was.
pub open spec fn push_recorded(s: AppState, s2: AppState, name: Seq<char>, background: bool, r: Result<(), StepError>) -> bool {
    let img = selected_image_of(s);
    let old_map = s.store.project_remote_images@;
    let new_map = s2.store.project_remote_images@;
    if img matches Image::Local(l) && l.digest is None {
        &&& r matches Err(StepError::Image(ParseImageError::Digest(t)))
            && t@ == crate::image::local::none_marker()
        &&& s2 == s
    } else if !old_map.dom().contains(name) {
        &&& r == Err::<(), StepError>(StepError::Store(StoreError::ProjectNotFound))
        &&& s2 == s
    } else {
        let pushed = new_map[name]@.last();
        &&& r is Ok
        &&& s2 == (AppState {
            store: s2.store,
            loading: if background {
                None
            } else {
                s.loading
            },
            ..s
        })
        &&& s2.store.project_registry_digests == s.store.project_registry_digests
        &&& new_map == old_map.insert(name, new_map[name])
        &&& new_map[name]@ == old_map[name]@.push(pushed)
        &&& Some(pushed.digest@) == crate::image::remote::image_digest(img)
        &&& pushed.tags@ == crate::image::remote::image_tags(img)
    }
}

impl AppState {
    /// Converts a registry's listing in order, stopping at the first entry
    /// whose digest does not parse; `None` when that entry would make the
    /// conversion panic.
    pub fn parse_remote_images(raws: &Vec<RawRemoteImage>) -> (r: Option<Result<Vec<RemoteImage>, ParseImageError>>)
        ensures
            ({
                let k = first_unparsed(raws@);
                if remote_listing_panics(raws@) {
                    r is None
                } else if k < raws@.len() {
                    r matches Some(Err(ParseImageError::Digest(d))) && d == raws@[k].digest
                } else {
                    r matches Some(Ok(v)) && parsed_remote_images(raws@, v@)
                }
            }),
    {
        let mut v: Vec<RemoteImage> = Vec::new();
        let mut i: usize = 0;
        while i < raws.len()
            invariant
                i <= raws@.len(),
                v@.len() == i,
                forall|j: int| 0 <= j < i ==> !digest_unparsed()(#[trigger] raws@[j]),
                forall|j: int|
                    0 <= j < i ==> sha_parse_result(encode_utf8(raws@[j].digest@)) == Ok::<
                        Seq<u8>,
                        crate::utils::ShaParseError,
                    >((#[trigger] v@[j]).digest@) && v@[j].tags@ == raws@[j].tags@,
            decreases raws.len() - i,
        {
            let raw = RawRemoteImage { digest: raws[i].digest.clone(), tags: raws[i].tags.duplicate() };
            if digest_text_panics(raw.digest.as_str()) {
                proof {
                    assert(sha_parse_result(encode_utf8(raws@[i as int].digest@)) is Err);
                    lemma_first_match(raws@, digest_unparsed(), i as int);
                }
                return None;
            }
            match RemoteImage::try_from(raw) {
                Ok(img) => {
                    v.push(img);
                },
                Err(e) => {
                    proof {
                        lemma_first_match(raws@, digest_unparsed(), i as int);
                    }
                    return Some(Err(e));
                },
            }
            i = i + 1;
        }
        proof {
            lemma_first_match(raws@, digest_unparsed(), i as int);
        }
        Some(Ok(v))
    }

    /// Records the remote images fetched for `project_name`, as
    /// `fetched_recorded` says; fails with the first entry whose digest does
    /// not parse, leaving the state as it was; `None` when that entry would
    /// make the conversion panic.
    pub fn record_fetched_images(&mut self, project_name: &str, raws: &Vec<RawRemoteImage>) -> (r: Option<Result<(), StepError>>)
        ensures
            ({
                let k = first_unparsed(raws@);
                if remote_listing_panics(raws@) {
                    r is None && *final(self) == *old(self)
                } else if k < raws@.len() {
                    &&& r matches Some(Err(StepError::FetchImage(ParseImageError::Digest(d)))) && d == raws@[k].digest
                    &&& *final(self) == *old(self)
                } else {
                    r matches Some(res) && fetched_recorded(*old(self), *final(self), project_name@, raws@, res)
                }
            }),
    {
        let images = match AppState::parse_remote_images(raws) {
            None => {
                return None;
            },
            Some(Err(e)) => {
                return Some(Err(StepError::FetchImage(e)));
            },
            Some(Ok(v)) => v,
        };
        let ghost iv = images@;
        self.store.project_remote_images.insert(project_name.to_owned(), images);
        self.loading = None;
        let ghost mid = *self;
        assert(mid.store.project_remote_images@[project_name@]@ == iv);
        let res = match self.sync_project_images_from_store(project_name) {
            Ok(_) => Ok(()),
            Err(e) => Err(StepError::State(e)),
        };
        Some(res)
    }

    /// Finishes deletion `d` once its command ran, as `deletion_finished`
    /// says.
    pub fn finish_deletion(&mut self, d: &Deletion, background: bool) -> (r: Result<(), StepError>)
        ensures
            deletion_finished(*old(self), *final(self), *d, background, r),
    {
        if background {
            self.loading = None;
        }
        let remote = match RemoteImage::try_from_local(&d.image) {
            Ok(img) => img,
            Err(e) => {
                return Err(StepError::Image(e));
            },
        };
        match self.store.remove_remote_image(d.plan.project_name.as_str(), &remote) {
            Ok(_) => Ok(()),
            Err(e) => Err(StepError::Store(e)),
        }
    }

    /// Records the selected image as pushed to the registry of project
    /// `project_name`, as `push_recorded` says.
    pub fn record_pushed_image(&mut self, project_name: &str, background: bool) -> (r: Result<(), StepError>)
        requires
            image_selected(*old(self)),
        ensures
            push_recorded(*old(self), *final(self), project_name@, background, r),
    {
        let remote = match self.selected_image() {
            Image::Local(l) => match RemoteImage::try_from_local(l) {
                Ok(img) => img,
                Err(e) => {
                    return Err(StepError::Image(e));
                },
            },
            Image::Remote(r) => r.duplicate(),
        };
        let ghost pushed = remote;
        match self.store.push_remote_image(project_name, remote) {
            Ok(_) => {},
            Err(e) => {
                return Err(StepError::Store(e));
            },
        }
        if background {
            self.loading = None;
        }
        assert(self.store.project_remote_images@[project_name@]@.last() == pushed);
        Ok(())
    }

    /// Ends the loading shown.
    pub fn stop_loading(&mut self)
        ensures
            *final(self) == (AppState { loading: None, ..*old(self) }),
    {
        self.loading = None;
    }
}

/// The interface: its parts and its state.
pub struct App {
    pub root_component: RootWidget,
    pub state: AppState,
}

/// `s2` is `s` with an error popup saying `text`, the popup taking the
/// focus.
pub open spec fn error_shown(s: AppState, s2: AppState, text: Seq<char>) -> bool {
    s2.popup matches Some(PopupVariant::Error(m)) && m@ == text && s2 == with_error_shown(s, m)
}

impl App {
    /// The interface over the given projects, configuration and store, in the
    /// state `AppState::new` gives.
    pub fn from_parts(projects: Vec<Project>, config: Config, store: Store) -> (app: App)
        ensures
            synced_with_store(store, projects@, app.state.projects@),
            app.state.config == config,
            app.state.store == store,
            app.state.loading is None,
            app.state.spinner_frame == 0,
            !app.state.exit,
            app.state.project_table_state == (TableState { offset: 0, selected: Some(0) }),
            app.state.image_table_state == (TableState { offset: 0, selected: Some(0) }),
            app.state.popup is None,
            app.state.focus == Focus::Projects,
    {
        App { root_component: RootWidget::new(), state: AppState::new(projects, config, store) }
    }

    /// The action that `event` asks for.
    pub fn next_action(&mut self, event: &Event) -> (a: Action)
        ensures
            a == root_event_action(old(self).root_component, *event, old(self).state),
            final(self).state == old(self).state,
    {
        self.root_component.handle_events(event, &self.state)
    }

    /// Carries out action `a`, as `AppState::apply_action`; when it fails,
    /// its error is shown in a popup.
    pub fn handle_action(&mut self, a: Action) -> (r: Result<Effect, ActionError>)
        requires
            action_ready(old(self).state, a),
        ensures
            match r {
                Ok(_) => action_outcome(old(self).state, final(self).state, a, r),
                Err(e) => action_outcome(old(self).state, old(self).state, a, r) && error_shown(
                    old(self).state,
                    final(self).state,
                    action_error_text(e),
                ),
            },
    {
        match self.state.apply_action(a) {
            Ok(effect) => Ok(effect),
            Err(e) => {
                self.state.show_error(e.message());
                Err(e)
            },
        }
    }

    /// Shows the error of a step that failed.
    pub fn fail(&mut self, e: &StepError)
        ensures
            error_shown(old(self).state, final(self).state, step_error_text(*e)),
            final(self).root_component == old(self).root_component,
    {
        self.state.show_error(e.message());
    }

    /// One turn of the loop before drawing: the spinner moves on.
    pub fn tick(&mut self)
        requires
            old(self).state.spinner_frame < usize::MAX,
        ensures
            final(self).state == (AppState {
                spinner_frame: next_spinner_frame(old(self).state.spinner_frame),
                ..old(self).state
            }),
    {
        self.state.advance_spinner();
    }
}

} // verus!
