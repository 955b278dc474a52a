//! The actions the user can ask for.

use vstd::prelude::*;

verus! {

/// An action of the interface.
#[derive(Debug, Clone, Copy, PartialEq, Eq, Structural)]
pub enum Action {
    SelectUp,
    SelectDown,
    FocusImages,
    FocusProjects,
    PushImage,
    PullImage,
    DeleteImage,
    FetchImages,
    PruneImages,
    Quit,
    Noop,
    ClosePopup,
}

/// The text shown for an action: its name.
pub open spec fn action_name(a: Action) -> Seq<char> {
    match a {
        Action::SelectUp => "SelectUp"@,
        Action::SelectDown => "SelectDown"@,
        Action::FocusImages => "FocusImages"@,
        Action::FocusProjects => "FocusProjects"@,
        Action::PushImage => "PushImage"@,
        Action::PullImage => "PullImage"@,
        Action::DeleteImage => "DeleteImage"@,
        Action::FetchImages => "FetchImages"@,
        Action::PruneImages => "PruneImages"@,
        Action::Quit => "Quit"@,
        Action::Noop => "Noop"@,
        Action::ClosePopup => "ClosePopup"@,
    }
}

impl Action {
    /// The action's name, as the interface shows it.
    pub fn name(&self) -> (s: String)
        ensures
            s@ == action_name(*self),
    {
        let t = match self {
            Action::SelectUp => "SelectUp",
            Action::SelectDown => "SelectDown",
            Action::FocusImages => "FocusImages",
            Action::FocusProjects => "FocusProjects",
            Action::PushImage => "PushImage",
            Action::PullImage => "PullImage",
            Action::DeleteImage => "DeleteImage",
            Action::FetchImages => "FetchImages",
            Action::PruneImages => "PruneImages",
            Action::Quit => "Quit",
            Action::Noop => "Noop",
            Action::ClosePopup => "ClosePopup",
        };
        t.to_owned()
    }
}

/// Actions available whatever has the focus.
pub fn global_actions() -> (v: Vec<Action>)
    ensures
        v@ == seq![Action::SelectUp, Action::SelectDown, Action::Quit],
{
    vec![Action::SelectUp, Action::SelectDown, Action::Quit]
}

/// Actions available when the image list has the focus.
pub fn image_actions() -> (v: Vec<Action>)
    ensures
        v@ == seq![Action::FocusProjects, Action::PushImage, Action::PullImage, Action::DeleteImage],
{
    vec![Action::FocusProjects, Action::PushImage, Action::PullImage, Action::DeleteImage]
}

/// Actions available when the project list has the focus.
pub fn project_actions() -> (v: Vec<Action>)
    ensures
        v@ == seq![Action::FocusImages, Action::FetchImages, Action::PruneImages],
{
    vec![Action::FocusImages, Action::FetchImages, Action::PruneImages]
}

/// Actions available while a popup is shown.
pub fn popup_actions() -> (v: Vec<Action>)
    ensures
        v@ == seq![Action::ClosePopup],
{
    vec![Action::ClosePopup]
}

} // verus!
