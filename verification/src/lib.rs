//! Symlink management driven by declaration files and a lock file.
//!
//! The library holds the rules: how paths are normalized, how a chain of
//! declaration files resolves to the links that should exist, what the lock
//! file records and how it is compared with the declarations and with the
//! disk, and what to do when a link's place is already taken.  Reading and
//! writing files, prompting and printing are left to the caller, who hands
//! the library what it observed.
pub mod text;
pub mod path;
pub mod table;
pub mod disk;
pub mod lock;
pub mod config;
pub mod link;
pub mod schema;
pub mod log;
pub mod reconcile;
