//! Turns a resolved dependency graph into the text pieces of a BitBake
//! recipe: fetch URIs for every remote dependency, revision pins for git
//! sources, a version-suffix policy for the root checkout, a license file
//! list, and a placeholder-template renderer that binds them all.
//!
//! Everything here is pure string computation; reading manifests, running
//! the resolver, inspecting the git checkout and writing the recipe file
//! are left to the surrounding program.

pub mod assemble;
pub mod classify;
pub mod errors;
pub mod giturl;
pub mod license;
pub mod metadata;
pub mod pinning;
pub mod render;
pub mod text;

