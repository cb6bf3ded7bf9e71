//! Automated versioning for multi-package workspaces.
//!
//! The library covers the pure state machine of the tool: resolving
//! workspace member patterns from a manifest, locating the package a
//! changed file belongs to, recording version-bump intents, applying
//! semantic-version arithmetic and changelog updates, and planning a
//! release from the persisted manifest. All file and process I/O lives
//! outside the library; functions here work on plain strings.

pub mod apply;
pub mod changelog;
pub mod descriptor;
pub mod locator;
pub mod record;
pub mod release;
pub mod resolver;
pub mod status;
pub mod semver;
pub mod strutil;
