//! Domain logic of the ICTHub project library: permissions, project and tag
//! validation, cover generation, import classification and the import job
//! state machine.

use vstd::prelude::*;

pub mod auth;
pub mod checksum;
pub mod config;
pub mod covers;
pub mod error;
pub mod github;
pub mod ids;
pub mod json;
pub mod imports;
pub mod paths;
pub mod projects;
pub mod resources;
pub mod tags;
pub mod text;
pub mod urls;

verus! {
} // verus!
