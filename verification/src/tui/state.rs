//! The application state and the changes that actions make to it.

use vstd::prelude::*;
use crate::image::Image;
use crate::image::local::LocalImage;
use crate::image::prelude::Id;
use crate::project::{Project, ProjectError, last_segment, local_id_is, merges_all};
use crate::search::{first_match, lemma_first_match};
use crate::store::Store;
use crate::text::{concat_text, same_text};
use crate::tui::config::{Config, RegistryCommands};
use crate::tui::table::TableState;

verus! {

/// Number of frames of the loading spinner.
pub const SPINNER_FRAMES: usize = 10;

/// What has the keyboard focus; a popup remembers what had it before.
#[derive(Debug)]
pub enum Focus {
    Projects,
    Images,
    Popup(Box<Focus>),
}

/// A message shown over the interface.
pub enum PopupVariant {
    Info(String),
    Error(String),
}

/// Why a lookup in the state failed.
#[derive(Debug, PartialEq, Eq)]
pub enum StateError {
    /// No project has the name.
    ProjectNotFound(String),
    /// The project has no local image with the id.
    ImageNotFound,
    /// The image is not a local one.
    NotLocal,
    /// The selected project has no configured registry.
    NoRegistry,
    /// The store has no images for the project.
    NotInStore(String),
    /// No project has the name.
    NotInState(String),
}

/// The text of a state error.
pub open spec fn state_error_text(e: StateError) -> Seq<char> {
    match e {
        StateError::ProjectNotFound(n) => "Cannot find project \""@ + n@ + "\""@,
        StateError::ImageNotFound => "Cannot find image"@,
        StateError::NotLocal => "Image is not local"@,
        StateError::NoRegistry => "Selected project has no configured registry"@,
        StateError::NotInStore(n) => "Cannot find project \""@ + n@ + "\" in store"@,
        StateError::NotInState(n) => "Cannot find project \""@ + n@ + "\" in state"@,
    }
}

impl StateError {
    /// What the error says.
    pub fn message(&self) -> (m: String)
        ensures
            m@ == state_error_text(*self),
    {
        match self {
            StateError::ProjectNotFound(n) => concat_text(concat_text("Cannot find project \"", n.as_str()).as_str(), "\""),
            StateError::ImageNotFound => "Cannot find image".to_owned(),
            StateError::NotLocal => "Image is not local".to_owned(),
            StateError::NoRegistry => "Selected project has no configured registry".to_owned(),
            StateError::NotInStore(n) => concat_text(
                concat_text("Cannot find project \"", n.as_str()).as_str(),
                "\" in store",
            ),
            StateError::NotInState(n) => concat_text(
                concat_text("Cannot find project \"", n.as_str()).as_str(),
                "\" in state",
            ),
        }
    }
}

/// The whole state of the interface.
pub struct AppState {
    pub projects: Vec<Project>,
    pub config: Config,
    pub store: Store,
    pub loading: Option<String>,
    pub spinner_frame: usize,
    pub exit: bool,
    pub project_table_state: TableState,
    pub image_table_state: TableState,
    pub popup: Option<PopupVariant>,
    pub focus: Focus,
}

/// The condition that picks the project named `n`.
pub open spec fn name_is(n: Seq<char>) -> spec_fn(Project) -> bool {
    |p: Project| p.name@ == n
}

/// `after` is `before` with the store's remote images recorded: the first
/// project of each name the store knows gets that name's images, in order;
/// every other project stays as it was.
pub open spec fn synced_with_store(store: Store, before: Seq<Project>, after: Seq<Project>) -> bool {
    let remote = store.project_remote_images@;
    &&& after.len() == before.len()
    &&& forall|j: int| 0 <= j < before.len() ==> (#[trigger] after[j]).name == before[j].name
    &&& forall|j: int|
        0 <= j < before.len() ==> if remote.dom().contains(before[j].name@) && first_match(
            before,
            name_is(before[j].name@),
        ) == j {
            merges_all(before[j].images@, (#[trigger] after[j]).images@, remote[before[j].name@]@)
        } else {
            after[j] == before[j]
        }
}

/// Projects grouped from listed images, as names and images: each image
/// joins the first group named after its repository's last segment, or starts
/// a new group at the end.
pub open spec fn project_groups(imgs: Seq<LocalImage>) -> Seq<(Seq<char>, Seq<LocalImage>)>
    decreases imgs.len(),
{
    if imgs.len() == 0 {
        Seq::empty()
    } else {
        let groups = project_groups(imgs.drop_last());
        let img = imgs.last();
        let n = last_segment(img.repository@);
        let k = first_match(groups, group_named(n));
        if k < groups.len() {
            groups.update(k, (n, groups[k].1.push(img)))
        } else {
            groups.push((n, seq![img]))
        }
    }
}

/// The condition that picks the group named `n`.
pub open spec fn group_named(n: Seq<char>) -> spec_fn((Seq<char>, Seq<LocalImage>)) -> bool {
    |g: (Seq<char>, Seq<LocalImage>)| g.0 == n
}

/// The images of a group, as project images.
pub open spec fn as_local_images(imgs: Seq<LocalImage>) -> Seq<Image> {
    imgs.map_values(|l: LocalImage| Image::Local(l))
}

/// Every group of `project_groups(imgs)` holds at least one image, every
/// image of a group belongs to it by name, and no two groups share a name.
pub proof fn lemma_project_groups(imgs: Seq<LocalImage>)
    ensures
        ({
            let gs = project_groups(imgs);
            &&& forall|i: int| 0 <= i < gs.len() ==> (#[trigger] gs[i]).1.len() > 0
            &&& forall|i: int, j: int|
                0 <= i < gs.len() && 0 <= j < gs[i].1.len() ==> last_segment((#[trigger] gs[i].1[j]).repository@)
                    == gs[i].0
            &&& forall|i: int, k: int| 0 <= i < k < gs.len() ==> (#[trigger] gs[i]).0 != (#[trigger] gs[k]).0
        }),
    decreases imgs.len(),
{
    if imgs.len() > 0 {
        let prev = project_groups(imgs.drop_last());
        lemma_project_groups(imgs.drop_last());
        let img = imgs.last();
        let n = last_segment(img.repository@);
        crate::search::lemma_first_match_exists(prev, group_named(n));
        let k = first_match(prev, group_named(n));
        let gs = project_groups(imgs);
        if k < prev.len() {
            assert(prev[k].0 == n);
            assert(gs == prev.update(k, (n, prev[k].1.push(img))));
            assert forall|i: int, j: int|
                0 <= i < gs.len() && 0 <= j < gs[i].1.len() implies last_segment((#[trigger] gs[i].1[j]).repository@)
                == gs[i].0 by {
                if i == k {
                    if j < prev[k].1.len() {
                        assert(gs[i].1[j] == prev[k].1[j]);
                    }
                } else {
                    assert(gs[i] == prev[i]);
                }
            }
            assert forall|i: int, m: int| 0 <= i < m < gs.len() implies (#[trigger] gs[i]).0 != (#[trigger] gs[m]).0 by {
                assert(gs[i].0 == prev[i].0);
                assert(gs[m].0 == prev[m].0);
            }
        } else {
            assert(gs == prev.push((n, seq![img])));
            assert forall|i: int| 0 <= i < prev.len() implies (#[trigger] prev[i]).0 != n by {
                assert(!group_named(n)(prev[i]));
            }
            assert forall|i: int, j: int|
                0 <= i < gs.len() && 0 <= j < gs[i].1.len() implies last_segment((#[trigger] gs[i].1[j]).repository@)
                == gs[i].0 by {
                if i < prev.len() {
                    assert(gs[i] == prev[i]);
                }
            }
            assert forall|i: int, m: int| 0 <= i < m < gs.len() implies (#[trigger] gs[i]).0 != (#[trigger] gs[m]).0 by {
                assert(gs[i] == prev[i]);
                if m < prev.len() {
                    assert(gs[m] == prev[m]);
                }
            }
        }
    }
}

/// The condition that picks the images whose repository's last segment is
/// `n`.
pub open spec fn repository_named(n: Seq<char>) -> spec_fn(LocalImage) -> bool {
    |l: LocalImage| last_segment(l.repository@) == n
}

/// A filter that no element passes leaves nothing.
proof fn lemma_filter_none<A>(s: Seq<A>, p: spec_fn(A) -> bool)
    requires
        forall|i: int| 0 <= i < s.len() ==> !p(#[trigger] s[i]),
    ensures
        s.filter(p) == Seq::<A>::empty(),
{
    if s.filter(p).len() > 0 {
        let x = s.filter(p)[0];
        s.lemma_filter_pred(p, 0);
        assert(s.filter(p).contains(x));
        s.lemma_filter_contains_rev(p, x);
        let j = choose|j: int| 0 <= j < s.len() && s[j] == x;
        assert(!p(s[j]));
    }
    assert(s.filter(p) =~= Seq::<A>::empty());
}

/// Grouping keeps every listed image, each in exactly one group: each group
/// holds exactly the listed images, in listing order, whose repository's
/// last segment is its name, and every listed image has a group of that
/// name (the names being distinct, so the group sizes add up to the number
/// of images).
pub proof fn lemma_project_groups_partition(imgs: Seq<LocalImage>)
    ensures
        forall|g: int|
            0 <= g < project_groups(imgs).len() ==> (#[trigger] project_groups(imgs)[g]).1
                == imgs.filter(repository_named(project_groups(imgs)[g].0)),
        forall|i: int|
            0 <= i < imgs.len() ==> exists|g: int|
                0 <= g < project_groups(imgs).len() && (#[trigger] project_groups(imgs)[g]).0 == last_segment(
                    (#[trigger] imgs[i]).repository@,
                ),
    decreases imgs.len(),
{
    if imgs.len() > 0 {
        let s = imgs.drop_last();
        let prev = project_groups(s);
        lemma_project_groups_partition(s);
        lemma_project_groups(s);
        let img = imgs.last();
        let n = last_segment(img.repository@);
        assert(imgs =~= s.push(img));
        crate::search::lemma_first_match_exists(prev, group_named(n));
        let k = first_match(prev, group_named(n));
        let gs = project_groups(imgs);
        if k < prev.len() {
            assert(prev[k].0 == n);
            assert(gs == prev.update(k, (n, prev[k].1.push(img))));
            assert forall|g: int| 0 <= g < gs.len() implies (#[trigger] gs[g]).1 == imgs.filter(
                repository_named(gs[g].0),
            ) by {
                crate::search::lemma_filter_push(s, repository_named(gs[g].0), img);
                assert(prev[g].1 == s.filter(repository_named(prev[g].0)));
                if g != k {
                    assert(gs[g] == prev[g]);
                    if g < k {
                        assert(prev[g].0 != prev[k].0);
                    } else {
                        assert(prev[k].0 != prev[g].0);
                    }
                }
            }
            assert forall|i: int| 0 <= i < imgs.len() implies exists|g: int|
                0 <= g < gs.len() && (#[trigger] gs[g]).0 == last_segment((#[trigger] imgs[i]).repository@) by {
                if i < s.len() {
                    assert(imgs[i] == s[i]);
                    let g = choose|g: int| 0 <= g < prev.len() && (#[trigger] prev[g]).0 == last_segment(s[i].repository@);
                    assert(gs[g].0 == prev[g].0);
                } else {
                    assert(gs[k].0 == n);
                }
            }
        } else {
            assert(gs == prev.push((n, seq![img])));
            assert forall|g: int| 0 <= g < prev.len() implies (#[trigger] prev[g]).0 != n by {
                assert(!group_named(n)(prev[g]));
            }
            assert forall|i: int| 0 <= i < s.len() implies !repository_named(n)(#[trigger] s[i]) by {
                let g = choose|g: int| 0 <= g < prev.len() && (#[trigger] prev[g]).0 == last_segment(s[i].repository@);
                assert(prev[g].0 != n);
            }
            lemma_filter_none(s, repository_named(n));
            assert forall|g: int| 0 <= g < gs.len() implies (#[trigger] gs[g]).1 == imgs.filter(
                repository_named(gs[g].0),
            ) by {
                crate::search::lemma_filter_push(s, repository_named(gs[g].0), img);
                if g < prev.len() {
                    assert(gs[g] == prev[g]);
                    assert(prev[g].1 == s.filter(repository_named(prev[g].0)));
                } else {
                    assert(gs[g] == (n, seq![img]));
                    assert(Seq::<LocalImage>::empty().push(img) =~= seq![img]);
                }
            }
            assert forall|i: int| 0 <= i < imgs.len() implies exists|g: int|
                0 <= g < gs.len() && (#[trigger] gs[g]).0 == last_segment((#[trigger] imgs[i]).repository@) by {
                if i < s.len() {
                    assert(imgs[i] == s[i]);
                    let g = choose|g: int| 0 <= g < prev.len() && (#[trigger] prev[g]).0 == last_segment(s[i].repository@);
                    assert(gs[g].0 == prev[g].0);
                } else {
                    assert(gs[prev.len() as int].0 == n);
                }
            }
        }
    }
}

/// Extending a sequence keeps a first match that was found, and finds the new
/// element when it is the first to match.
proof fn lemma_first_match_push<A>(s: Seq<A>, p: spec_fn(A) -> bool, x: A)
    ensures
        first_match(s, p) < s.len() ==> first_match(s.push(x), p) == first_match(s, p),
        first_match(s, p) == s.len() && p(x) ==> first_match(s.push(x), p) == s.len(),
{
    crate::search::lemma_first_match_exists(s, p);
    let k = first_match(s, p);
    assert forall|j: int| 0 <= j < k implies !p(#[trigger] s.push(x)[j]) by {
        assert(s.push(x)[j] == s[j]);
    }
    if k < s.len() {
        assert(s.push(x)[k] == s[k]);
        lemma_first_match(s.push(x), p, k);
    } else if p(x) {
        assert(s.push(x)[k] == x);
        lemma_first_match(s.push(x), p, k);
    }
}

/// Groups come in the order in which their names first appear among the
/// listed images.
pub proof fn lemma_project_groups_order(imgs: Seq<LocalImage>)
    ensures
        forall|g: int|
            0 <= g < project_groups(imgs).len() ==> first_match(
                imgs,
                repository_named((#[trigger] project_groups(imgs)[g]).0),
            ) < imgs.len(),
        forall|g: int, h: int|
            0 <= g < h < project_groups(imgs).len() ==> first_match(
                imgs,
                repository_named((#[trigger] project_groups(imgs)[g]).0),
            ) < first_match(imgs, repository_named((#[trigger] project_groups(imgs)[h]).0)),
    decreases imgs.len(),
{
    if imgs.len() > 0 {
        let s = imgs.drop_last();
        let prev = project_groups(s);
        lemma_project_groups_order(s);
        lemma_project_groups_partition(s);
        let img = imgs.last();
        let n = last_segment(img.repository@);
        assert(imgs =~= s.push(img));
        crate::search::lemma_first_match_exists(prev, group_named(n));
        let k = first_match(prev, group_named(n));
        let gs = project_groups(imgs);
        assert forall|g: int| 0 <= g < prev.len() implies first_match(imgs, repository_named((#[trigger] prev[g]).0))
            == first_match(s, repository_named(prev[g].0)) by {
            lemma_first_match_push(s, repository_named(prev[g].0), img);
        }
        if k < prev.len() {
            assert(prev[k].0 == n);
            assert(gs == prev.update(k, (n, prev[k].1.push(img))));
            assert forall|g: int| 0 <= g < gs.len() implies (#[trigger] gs[g]).0 == prev[g].0 by {}
        } else {
            assert(gs == prev.push((n, seq![img])));
            assert forall|i: int| 0 <= i < s.len() implies !repository_named(n)(#[trigger] s[i]) by {
                let g = choose|g: int| 0 <= g < prev.len() && (#[trigger] prev[g]).0 == last_segment(s[i].repository@);
                assert(!group_named(n)(prev[g]));
            }
            crate::search::lemma_first_match_exists(s, repository_named(n));
            if first_match(s, repository_named(n)) < s.len() {
                assert(!repository_named(n)(s[first_match(s, repository_named(n))]));
            }
            lemma_first_match_push(s, repository_named(n), img);
            assert(first_match(imgs, repository_named(gs[prev.len() as int].0)) == s.len());
            assert forall|g: int| 0 <= g < prev.len() implies (#[trigger] gs[g]) == prev[g] by {}
        }
    }
}

/// `projects` are the groups `groups`.
pub open spec fn projects_match_groups(projects: Seq<Project>, groups: Seq<(Seq<char>, Seq<LocalImage>)>) -> bool {
    &&& projects.len() == groups.len()
    &&& forall|i: int|
        0 <= i < groups.len() ==> (#[trigger] projects[i]).name@ == groups[i].0 && projects[i].images@
            == as_local_images(groups[i].1)
}

/// Everything but the projects is the same in `a` and `b`.
pub open spec fn same_but_projects(a: AppState, b: AppState) -> bool {
    &&& a.config == b.config
    &&& a.store == b.store
    &&& a.loading == b.loading
    &&& a.spinner_frame == b.spinner_frame
    &&& a.exit == b.exit
    &&& a.project_table_state == b.project_table_state
    &&& a.image_table_state == b.image_table_state
    &&& a.popup == b.popup
    &&& a.focus == b.focus
}

/// The selected project exists.
pub open spec fn project_selected(s: AppState) -> bool {
    s.project_table_state.selected matches Some(i) && i < s.projects@.len()
}

/// The selected project.
pub open spec fn selected_project_of(s: AppState) -> Project {
    s.projects@[s.project_table_state.selected->0 as int]
}

/// The selected project and its selected image exist.
pub open spec fn image_selected(s: AppState) -> bool {
    &&& project_selected(s)
    &&& s.image_table_state.selected matches Some(i) && i < selected_project_of(s).images@.len()
}

impl AppState {
    /// The state the interface starts in: the given projects (with the
    /// store's images recorded), nothing loading, first rows selected, the
    /// project list focused.
    pub fn new(projects: Vec<Project>, config: Config, store: Store) -> (s: AppState)
        ensures
            synced_with_store(store, projects@, s.projects@),
            s.config == config,
            s.store == store,
            s.loading is None,
            s.spinner_frame == 0,
            !s.exit,
            s.project_table_state == (TableState { offset: 0, selected: Some(0) }),
            s.image_table_state == (TableState { offset: 0, selected: Some(0) }),
            s.popup is None,
            s.focus == Focus::Projects,
    {
        let mut state = AppState {
            projects,
            config,
            store,
            loading: None,
            spinner_frame: 0,
            exit: false,
            project_table_state: TableState::new().with_selected(0),
            image_table_state: TableState::new().with_selected(0),
            popup: None,
            focus: Focus::Projects,
        };
        state.sync_store_images();
        state
    }

    /// The selected project.
    pub fn selected_project(&self) -> (p: &Project)
        requires
            project_selected(*self),
        ensures
            *p == selected_project_of(*self),
    {
        let i = match self.project_table_state.selected() {
            Some(i) => i,
            None => 0,
        };
        &self.projects[i]
    }

    /// The selected image of the selected project.
    pub fn selected_image(&self) -> (img: &Image)
        requires
            image_selected(*self),
        ensures
            *img == selected_project_of(*self).images@[self.image_table_state.selected->0 as int],
    {
        let i = match self.image_table_state.selected() {
            Some(i) => i,
            None => 0,
        };
        &self.selected_project().images[i]
    }

    /// The first project named `name`.
    pub fn find_project_with_name(&self, name: &str) -> (r: Option<&Project>)
        ensures
            ({
                let k = first_match(self.projects@, name_is(name@));
                &&& r is Some <==> k < self.projects@.len()
                &&& r matches Some(p) ==> *p == self.projects@[k] && p.name@ == name@
            }),
    {
        let mut i: usize = 0;
        while i < self.projects.len()
            invariant
                i <= self.projects@.len(),
                forall|j: int| 0 <= j < i ==> !name_is(name@)(#[trigger] self.projects@[j]),
            decreases self.projects.len() - i,
        {
            if same_text(self.projects[i].name.as_str(), name) {
                proof {
                    lemma_first_match(self.projects@, name_is(name@), i as int);
                }
                return Some(&self.projects[i]);
            }
            i = i + 1;
        }
        proof {
            lemma_first_match(self.projects@, name_is(name@), i as int);
        }
        None
    }

    /// As `find_project_with_name`, failing with `ProjectNotFound`.
    pub fn try_find_project_with_name(&self, name: &str) -> (r: Result<&Project, StateError>)
        ensures
            ({
                let k = first_match(self.projects@, name_is(name@));
                &&& r is Ok <==> k < self.projects@.len()
                &&& r matches Ok(p) ==> *p == self.projects@[k] && p.name@ == name@
                &&& r matches Err(e) ==> e matches StateError::ProjectNotFound(n) && n@ == name@
            }),
    {
        match self.find_project_with_name(name) {
            Some(p) => Ok(p),
            None => Err(StateError::ProjectNotFound(name.to_owned())),
        }
    }

    /// The local image with identifier `id` in the project named
    /// `project_name`.
    pub fn try_find_local_image_with_id(&self, project_name: &str, id: &Id) -> (r: Result<&LocalImage, StateError>)
        ensures
            ({
                let k = first_match(self.projects@, name_is(project_name@));
                if k < self.projects@.len() {
                    let imgs = self.projects@[k].images@;
                    let m = first_match(imgs, local_id_is(id@));
                    &&& r is Ok <==> m < imgs.len()
                    &&& r matches Ok(img) ==> imgs[m] == Image::Local(*img)
                    &&& r matches Err(e) ==> e == StateError::ImageNotFound
                } else {
                    r matches Err(e) && e matches StateError::ProjectNotFound(n) && n@ == project_name@
                }
            }),
    {
        match self.try_find_project_with_name(project_name) {
            Err(e) => Err(e),
            Ok(p) => match p.try_find_local_image_with_id(id) {
                Ok(img) => Ok(img),
                Err(ProjectError::NotLocal) => Err(StateError::NotLocal),
                Err(_) => Err(StateError::ImageNotFound),
            },
        }
    }

    /// The registry configured for the selected project.
    pub fn selected_registry(&self) -> (r: Option<&String>)
        requires
            project_selected(*self),
        ensures
            ({
                let regs = self.config.project_registries@;
                let n = selected_project_of(*self).name@;
                &&& r is Some <==> regs.dom().contains(n)
                &&& r matches Some(reg) ==> *reg == regs[n]
            }),
    {
        let project = self.selected_project();
        self.config.project_registries.get(project.name.as_str())
    }

    /// As `selected_registry`, failing with `NoRegistry`.
    pub fn try_get_selected_registry(&self) -> (r: Result<&String, StateError>)
        requires
            project_selected(*self),
        ensures
            ({
                let regs = self.config.project_registries@;
                let n = selected_project_of(*self).name@;
                &&& r is Ok <==> regs.dom().contains(n)
                &&& r matches Ok(reg) ==> *reg == regs[n]
                &&& r matches Err(e) ==> e == StateError::NoRegistry
            }),
    {
        match self.selected_registry() {
            Some(r) => Ok(r),
            None => Err(StateError::NoRegistry),
        }
    }

    /// The commands of the selected project's registry.
    pub fn selected_cmds(&self) -> (r: Option<RegistryCommands>)
        requires
            project_selected(*self),
        ensures
            ({
                let regs = self.config.project_registries@;
                let cmds = self.config.registry_commands@;
                let n = selected_project_of(*self).name@;
                &&& r is Some <==> regs.dom().contains(n) && cmds.dom().contains(regs[n]@)
                &&& r matches Some(c) ==> c.delete_image == cmds[regs[n]@].delete_image && c.list_images
                    == cmds[regs[n]@].list_images
            }),
    {
        let project = self.selected_project();
        let reg = match self.config.project_registries.get(project.name.as_str()) {
            Some(r) => r,
            None => {
                return None;
            },
        };
        match self.config.registry_commands.get(reg.as_str()) {
            Some(c) => Some(c.duplicate()),
            None => None,
        }
    }

    /// The OCI command.
    pub fn get_oci_cmd(&self) -> (s: &str)
        ensures
            s@ == self.config.oci_cmd@,
    {
        self.config.oci_cmd.as_str()
    }

    /// Records the store's remote images in the projects.
    #[verifier::spinoff_prover]
    pub fn sync_store_images(&mut self)
        ensures
            synced_with_store(old(self).store, old(self).projects@, final(self).projects@),
            same_but_projects(*old(self), *final(self)),
    {
        let ghost orig = self.projects@;
        let ghost remote = self.store.project_remote_images@;
        let n = self.store.project_remote_images.len();
        let _ = self.store.project_remote_images.keys_distinct();
        let mut i: usize = 0;
        while i < n
            invariant
                i <= n,
                n == self.store.project_remote_images.entries().len(),
                remote == self.store.project_remote_images@,
                forall|a: int, b: int|
                    0 <= a < b < n ==> (#[trigger] self.store.project_remote_images.entries()[a]).0@
                        != (#[trigger] self.store.project_remote_images.entries()[b]).0@,
                same_but_projects(*old(self), *self),
                orig == old(self).projects@,
                self.projects@.len() == orig.len(),
                forall|j: int| 0 <= j < orig.len() ==> (#[trigger] self.projects@[j]).name == orig[j].name,
                forall|j: int|
                    0 <= j < orig.len() ==> if (exists|e: int|
                        0 <= e < i && (#[trigger] self.store.project_remote_images.entries()[e]).0@
                            == orig[j].name@) && first_match(orig, name_is(orig[j].name@)) == j {
                        merges_all(orig[j].images@, (#[trigger] self.projects@[j]).images@, remote[orig[j].name@]@)
                    } else {
                        self.projects@[j] == orig[j]
                    },
            decreases n - i,
        {
            let name = self.store.project_remote_images.key_at(i);
            let store_images = self.store.project_remote_images.value_at(i);
            let mut k: usize = 0;
            while k < self.projects.len() && !same_text(self.projects[k].name.as_str(), name.as_str())
                invariant
                    k <= self.projects@.len(),
                    forall|j: int| 0 <= j < k ==> (#[trigger] self.projects@[j]).name@ != name@,
                decreases self.projects.len() - k,
            {
                k = k + 1;
            }
            proof {
                assert forall|j: int| 0 <= j < k implies !name_is(name@)(#[trigger] orig[j]) by {
                    assert(self.projects@[j].name == orig[j].name);
                }
                lemma_first_match(orig, name_is(name@), k as int);
            }
            if k < self.projects.len() {
                let ghost before = self.projects@;
                let mut project = self.projects.remove(k);
                project.merge_remote_images(store_images);
                let ghost pv = project;
                self.projects.insert(k, project);
                proof {
                    assert(self.projects@[k as int] == pv);
                    assert(remote[name@] == *store_images);
                    assert(before[k as int] == orig[k as int]) by {
                        if before[k as int] != orig[k as int] {
                            let e = choose|e: int| 0 <= e < i && (#[trigger] self.store.project_remote_images.entries()[e]).0@ == orig[k as int].name@;
                            assert(self.store.project_remote_images.entries()[i as int].0@ == name@);
                        }
                    }
                    assert forall|j: int| 0 <= j < orig.len() implies (#[trigger] self.projects@[j]).name == orig[j].name by {
                        if j != k {
                            assert(self.projects@[j] == before[j]);
                        }
                    }
                    assert forall|j: int| 0 <= j < orig.len() implies if (exists|e: int|
                        0 <= e < i + 1 && (#[trigger] self.store.project_remote_images.entries()[e]).0@
                            == orig[j].name@) && first_match(orig, name_is(orig[j].name@)) == j {
                        merges_all(orig[j].images@, (#[trigger] self.projects@[j]).images@, remote[orig[j].name@]@)
                    } else {
                        self.projects@[j] == orig[j]
                    } by {
                        if j == k {
                            assert(self.store.project_remote_images.entries()[i as int].0@ == orig[j].name@);
                            assert(orig[j].name@ == name@);
                            assert(merges_all(orig[j].images@, self.projects@[j].images@, remote[orig[j].name@]@));
                        } else {
                            assert(self.projects@[j] == before[j]);
                            let old_cond = (exists|e: int| 0 <= e < i && (#[trigger] self.store.project_remote_images.entries()[e]).0@ == orig[j].name@)
                                && first_match(orig, name_is(orig[j].name@)) == j;
                            let new_cond = (exists|e: int| 0 <= e < i + 1 && (#[trigger] self.store.project_remote_images.entries()[e]).0@ == orig[j].name@)
                                && first_match(orig, name_is(orig[j].name@)) == j;
                            if new_cond {
                                let e = choose|e: int| 0 <= e < i + 1 && (#[trigger] self.store.project_remote_images.entries()[e]).0@ == orig[j].name@;
                                if e == i {
                                    assert(false);
                                }
                                assert(old_cond);
                                assert(merges_all(orig[j].images@, before[j].images@, remote[orig[j].name@]@));
                            } else {
                                if old_cond {
                                    let e = choose|e: int| 0 <= e < i && (#[trigger] self.store.project_remote_images.entries()[e]).0@ == orig[j].name@;
                                    assert(0 <= e < i + 1 && self.store.project_remote_images.entries()[e].0@ == orig[j].name@);
                                    assert(false);
                                }
                                assert(before[j] == orig[j]);
                            }
                        }
                    }
                }
            } else {
                proof {
                    assert forall|j: int| 0 <= j < orig.len() implies if (exists|e: int|
                        0 <= e < i + 1 && (#[trigger] self.store.project_remote_images.entries()[e]).0@
                            == orig[j].name@) && first_match(orig, name_is(orig[j].name@)) == j {
                        merges_all(orig[j].images@, (#[trigger] self.projects@[j]).images@, remote[orig[j].name@]@)
                    } else {
                        self.projects@[j] == orig[j]
                    } by {
                        if (exists|e: int| 0 <= e < i + 1 && (#[trigger] self.store.project_remote_images.entries()[e]).0@ == orig[j].name@) {
                            let e = choose|e: int| 0 <= e < i + 1 && (#[trigger] self.store.project_remote_images.entries()[e]).0@ == orig[j].name@;
                            if e == i {
                                assert(orig[j].name@ == name@);
                                assert(!name_is(name@)(orig[j]));
                            }
                        }
                    }
                }
            }
            i = i + 1;
        }
        proof {
            assert forall|j: int| 0 <= j < orig.len() && remote.dom().contains(orig[j].name@) implies (exists|e: int|
                0 <= e < n && (#[trigger] self.store.project_remote_images.entries()[e]).0@ == orig[j].name@) by {
                self.store.project_remote_images.lemma_key_has_entry(orig[j].name@);
            }
            assert forall|j: int| 0 <= j < orig.len() && (exists|e: int|
                0 <= e < n && (#[trigger] self.store.project_remote_images.entries()[e]).0@ == orig[j].name@) implies remote.dom().contains(orig[j].name@) by {
                let e = choose|e: int| 0 <= e < n && (#[trigger] self.store.project_remote_images.entries()[e]).0@ == orig[j].name@;
                self.store.project_remote_images.lemma_entry_in_dom(e);
            }
        }
    }

    /// Records the store's remote images for the project named
    /// `project_name`; fails when the store has none for it, or when no
    /// project has that name.
    pub fn sync_project_images_from_store(&mut self, project_name: &str) -> (r: Result<(), StateError>)
        ensures
            same_but_projects(*old(self), *final(self)),
            ({
                let remote = old(self).store.project_remote_images@;
                let ps = old(self).projects@;
                let k = first_match(ps, name_is(project_name@));
                if !remote.dom().contains(project_name@) {
                    &&& r matches Err(e) && e matches StateError::NotInStore(n) && n@ == project_name@
                    &&& final(self).projects@ == ps
                } else if k == ps.len() {
                    &&& r matches Err(e) && e matches StateError::NotInState(n) && n@ == project_name@
                    &&& final(self).projects@ == ps
                } else {
                    &&& r is Ok
                    &&& final(self).projects@.len() == ps.len()
                    &&& final(self).projects@[k].name == ps[k].name
                    &&& merges_all(ps[k].images@, final(self).projects@[k].images@, remote[project_name@]@)
                    &&& forall|j: int| 0 <= j < ps.len() && j != k ==> final(self).projects@[j] == ps[j]
                }
            }),
    {
        let store_images = match self.store.project_remote_images.get(project_name) {
            Some(v) => v,
            None => {
                return Err(StateError::NotInStore(project_name.to_owned()));
            },
        };
        let mut k: usize = 0;
        while k < self.projects.len() && !same_text(self.projects[k].name.as_str(), project_name)
            invariant
                k <= self.projects@.len(),
                forall|j: int| 0 <= j < k ==> !name_is(project_name@)(#[trigger] self.projects@[j]),
            decreases self.projects.len() - k,
        {
            k = k + 1;
        }
        proof {
            lemma_first_match(self.projects@, name_is(project_name@), k as int);
        }
        if k == self.projects.len() {
            return Err(StateError::NotInState(project_name.to_owned()));
        }
        let ghost before = self.projects@;
        let mut project = self.projects.remove(k);
        project.merge_remote_images(store_images);
        let ghost pv = project;
        self.projects.insert(k, project);
        assert(self.projects@[k as int] == pv);
        proof {
            assert forall|j: int| 0 <= j < before.len() && j != k implies self.projects@[j] == before[j] by {}
        }
        Ok(())
    }

    /// Groups listed images into projects named after the last segment of
    /// their repository, in order of first appearance.
    pub fn list_projects(images: Vec<LocalImage>) -> (projects: Vec<Project>)
        ensures
            projects_match_groups(projects@, project_groups(images@)),
            forall|i: int| 0 <= i < projects@.len() ==> (#[trigger] projects@[i]).images@.len() > 0,
            forall|i: int, j: int|
                0 <= i < projects@.len() && 0 <= j < projects@[i].images@.len() ==> ((#[trigger] projects@[i].images@[j]) matches Image::Local(l)
                    && last_segment(l.repository@) == projects@[i].name@),
            forall|i: int, k: int|
                0 <= i < k < projects@.len() ==> (#[trigger] projects@[i]).name@ != (#[trigger] projects@[k]).name@,
            forall|i: int|
                0 <= i < projects@.len() ==> (#[trigger] projects@[i]).images@ == as_local_images(
                    images@.filter(repository_named(projects@[i].name@)),
                ),
            forall|j: int|
                0 <= j < images@.len() ==> exists|i: int|
                    0 <= i < projects@.len() && (#[trigger] projects@[i]).name@ == last_segment(
                        (#[trigger] images@[j]).repository@,
                    ),
            forall|i: int, k: int|
                0 <= i < k < projects@.len() ==> first_match(
                    images@,
                    repository_named((#[trigger] projects@[i]).name@),
                ) < first_match(images@, repository_named((#[trigger] projects@[k]).name@)),
    {
        proof {
            lemma_project_groups(images@);
            lemma_project_groups_partition(images@);
            lemma_project_groups_order(images@);
        }
        let ghost orig = images@;
        let n = images.len();
        let mut rest = images;
        let mut projects: Vec<Project> = Vec::new();
        let mut i: usize = 0;
        assert(orig.subrange(0, 0) =~= Seq::<LocalImage>::empty());
        while rest.len() > 0
            invariant
                i <= orig.len(),
                orig.len() == n,
                i + rest@.len() == orig.len(),
                rest@ == orig.subrange(i as int, orig.len() as int),
                projects_match_groups(projects@, project_groups(orig.subrange(0, i as int))),
            decreases rest.len(),
        {
            let img = rest.remove(0);
            let ghost groups = project_groups(orig.subrange(0, i as int));
            proof {
                assert(img == orig[i as int]);
                assert(orig.subrange(0, i + 1).drop_last() =~= orig.subrange(0, i as int));
                assert(orig.subrange(0, i + 1).last() == img);
                assert(rest@ =~= orig.subrange(i + 1, orig.len() as int));
            }
            let name = match Project::get_project_name(img.repository.as_str()) {
                Ok(name) => name.to_owned(),
                Err(_) => img.repository.clone(),
            };
            let mut k: usize = 0;
            while k < projects.len() && !same_text(projects[k].name.as_str(), name.as_str())
                invariant
                    k <= projects@.len(),
                    projects_match_groups(projects@, groups),
                    forall|j: int| 0 <= j < k ==> !group_named(name@)(#[trigger] groups[j]),
                decreases projects.len() - k,
            {
                k = k + 1;
            }
            proof {
                lemma_first_match(groups, group_named(name@), k as int);
            }
            let ghost iv = img;
            if k < projects.len() {
                let ghost before = projects@;
                let mut project = projects.remove(k);
                project.images.push(Image::Local(img));
                let ghost pv = project;
                projects.insert(k, project);
                proof {
                    let ng = groups.update(k as int, (name@, groups[k as int].1.push(iv)));
                    assert(projects@[k as int] == pv);
                    assert(pv.images@ =~= as_local_images(groups[k as int].1.push(iv)));
                    assert(project_groups(orig.subrange(0, i + 1)) == ng);
                    assert forall|j: int| 0 <= j < ng.len() implies (#[trigger] projects@[j]).name@ == ng[j].0 && projects@[j].images@ == as_local_images(ng[j].1) by {
                        if j != k {
                            assert(projects@[j] == before[j]);
                        }
                    }
                }
            } else {
                let mut project = Project::new(name.as_str());
                project.images.push(Image::Local(img));
                let ghost pv = project;
                projects.push(project);
                proof {
                    let ng = groups.push((name@, seq![iv]));
                    assert(pv.images@ =~= as_local_images(seq![iv]));
                    assert(project_groups(orig.subrange(0, i + 1)) == ng);
                    assert forall|j: int| 0 <= j < ng.len() implies (#[trigger] projects@[j]).name@ == ng[j].0 && projects@[j].images@ == as_local_images(ng[j].1) by {
                    }
                }
            }
            i = i + 1;
        }
        assert(orig.subrange(0, orig.len() as int) =~= orig);
        proof {
            let gs = project_groups(orig);
            assert forall|j: int| 0 <= j < orig.len() implies exists|m: int|
                0 <= m < projects@.len() && (#[trigger] projects@[m]).name@ == last_segment(
                    (#[trigger] orig[j]).repository@,
                ) by {
                let g = choose|g: int| 0 <= g < gs.len() && (#[trigger] gs[g]).0 == last_segment(orig[j].repository@);
                assert(projects@[g].name@ == gs[g].0);
            }
            assert forall|m: int| 0 <= m < projects@.len() implies (#[trigger] projects@[m]).images@
                == as_local_images(orig.filter(repository_named(projects@[m].name@))) by {
                assert(gs[m].1 == orig.filter(repository_named(gs[m].0)));
            }
            assert forall|a: int, b: int| 0 <= a < b < projects@.len() implies first_match(
                orig,
                repository_named((#[trigger] projects@[a]).name@),
            ) < first_match(orig, repository_named((#[trigger] projects@[b]).name@)) by {
                assert(projects@[a].name@ == gs[a].0);
                assert(projects@[b].name@ == gs[b].0);
            }
        }
        projects
    }

    /// Replaces the projects by those grouped from `images` (a new listing of
    /// the local images) and records the store's remote images in them.
    pub fn refresh_projects(&mut self, images: Vec<LocalImage>)
        ensures
            same_but_projects(*old(self), *final(self)),
            exists|listed: Seq<Project>|
                projects_match_groups(listed, project_groups(images@)) && synced_with_store(
                    old(self).store,
                    listed,
                    #[trigger] final(self).projects@,
                ),
    {
        let ghost iv = images@;
        self.projects = AppState::list_projects(images);
        let ghost listed = self.projects@;
        self.sync_store_images();
        assert(projects_match_groups(listed, project_groups(iv)));
    }
}

} // verus!
