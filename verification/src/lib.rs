//! Calendar-based release versioning for a multi-project repository.
//!
//! The library decides whether a project is due for a release, computes the
//! next calendar version (`YY.MM.PATCH`), rewrites the version field of the
//! project's manifest while preserving the file's formatting, and propagates
//! the new version into dependent files.  Structured documents (YAML, TOML,
//! plain text) are queried and edited through a selector language; change
//! detection is anchored in version-control blame and diff information.

pub mod bytes;
pub mod strutil;
pub mod edit;
pub mod version;
pub mod selector;
pub mod yamltree;
pub mod yaml;
pub mod versionfile;
pub mod toml;
pub mod gitpaths;
pub mod settings;
pub mod dependents;
pub mod projects;
pub mod release;
pub mod cli;
