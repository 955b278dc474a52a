//! Images: local ones as the container engine lists them, remote ones as a
//! registry lists them.

pub mod local;
pub mod prelude;
pub mod tags;

pub mod remote;

use vstd::prelude::*;

verus! {

/// An image of a project: one that exists locally (possibly also pushed), or
/// one known only from its registry.
pub enum Image {
    Local(local::LocalImage),
    Remote(remote::RemoteImage),
}

} // verus!
