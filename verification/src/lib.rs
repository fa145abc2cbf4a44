//! Checks on versions of the form `major.minor.patch`.
//!
//! The library reads and writes such versions (`syntax`, on top of `number` and `text`),
//! orders them and decides the two policies that rest on the order (`version`). It finds the
//! version that a package manifest declares (`manifest`), names a repository and a file in it
//! (`repository`, `fetch`), and holds the two programs built from these as functions from
//! arguments, and from the answers of the hosting service, to a report of what to print and
//! how to exit (`pairwise`, `remote`, `report`). It does no input or output itself.

pub mod fetch;
pub mod manifest;
pub mod number;
pub mod pairwise;
pub mod remote;
pub mod report;
pub mod repository;
pub mod syntax;
pub mod text;
pub mod version;
