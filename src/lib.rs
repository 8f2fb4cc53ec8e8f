//! A notebook of plain-text notes kept in nested folders: the path model,
//! folder listings, note headings, recursive name and content search, the
//! note resolver, and the git commands that keep folders in sync with their
//! repositories.
//!
//! Nothing here reads or writes the disk or starts a process: callers hand in
//! what they read (directory entries, note lines, whether a path exists or
//! holds `.git`) and carry out what comes back (a folder or file to create or
//! delete, git commands to run).

pub mod args;
pub mod path;
pub mod text;
pub mod note;
pub mod folder;
pub mod search;
pub mod config;
pub mod sync;
pub mod resolve;
pub mod style;
