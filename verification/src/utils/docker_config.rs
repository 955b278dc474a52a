//! The container engine's client configuration, as far as it is read: the
//! registries it holds credentials for.

use vstd::prelude::*;
use crate::name_map::NameMap;

verus! {

/// Credentials for one registry (their content is not read).
pub struct Auth {}

/// The engine's client configuration: credentials, by registry.
pub struct DockerConfig {
    pub auths: NameMap<Auth>,
}

} // verus!
