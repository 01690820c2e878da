//! Scanner for package-manager configuration directories.
//!
//! The library enumerates a fixed family of configuration roots, parses
//! every non-comment line of their leaf files into a structured package
//! declaration, and aggregates all declarations into a deduplicated index
//! keyed by source file and qualified package name.
//!
//! All filesystem contents enter the library as plain values (snapshots of
//! directory listings and file lines); the reading itself is left to the
//! embedding application, so every function here is verified.

pub mod categories;
pub mod dirscan;
pub mod error;
pub mod package;
pub mod package_listing;
pub mod portage_dir;
pub mod portage_file;
pub mod portage_listing;
pub mod text;
pub mod utils;
