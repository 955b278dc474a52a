//! The earlier persisted state: per project, the digests in its registry.

use vstd::prelude::*;
use crate::name_map::NameMap;

verus! {

/// Digests known to be in each project's registry.
pub struct State {
    pub project_registry_digests: NameMap<Vec<[u8; 32]>>,
}

impl State {
    /// The state with no project.
    pub fn empty() -> (s: State)
        ensures
            s.project_registry_digests@ == Map::<Seq<char>, Vec<[u8; 32]>>::empty(),
    {
        State { project_registry_digests: NameMap::new() }
    }

    /// Replaces the state with what `setter` makes of it; the caller saves
    /// the state afterwards.
    pub fn sync<S: FnOnce(State) -> State>(&mut self, setter: S)
        requires
            setter.requires((*old(self),)),
        ensures
            setter.ensures((*old(self),), *final(self)),
    {
        let mut current = State::empty();
        std::mem::swap(&mut current, self);
        *self = setter(current);
    }
}

} // verus!
