//! Verified core of `ship`, a terminal front end for managing images kept in
//! remote OCI registries: parsing of image listings and digests, the grouping of
//! images into projects, the persisted store of remote images, key bindings and
//! the state machine that the user interface drives.

pub mod text;
pub mod config;
pub mod images;
pub mod tui;
pub mod utils;
pub mod image;
pub mod name_map;
pub mod project;
pub mod relation;
pub mod search;
pub mod state;
pub mod store;
