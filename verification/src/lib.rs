//! Verified core of a dependency-update tool.
//!
//! The library scans dependency manifests (a TOML manifest and two JSON
//! manifests), finds entries whose declared version differs from a resolved
//! "latest" version, and rewrites those entries in place while preserving the
//! rest of the document.  It also decides when backups are made, how backup
//! files are restored, and how the ignore-file is kept up to date.  All file
//! and process I/O lives outside the library; every function here is a pure
//! computation with a verified contract.
pub mod backup;
pub mod cargo;
pub mod driver;
pub mod ecosystem;
pub mod gitignore;
pub mod json_doc;
pub mod json_update;
pub mod model;
pub mod node;
pub mod outdated;
pub mod patch;
pub mod php;
pub mod reference;
pub mod toml_doc;
pub mod version;
