//! A browsable, editable view of one bare git repository: branch catalog,
//! path resolution, first-parent history attribution and single-file commits.
//!
//! The repository itself is reached through `git2`; every call into it stands
//! in the `store` module behind a contract that Verus takes on trust. All the
//! decisions made on what the repository hands back are verified.

pub mod blob;
pub mod branches;
pub mod common;
pub mod history;
pub mod info;
pub mod laws;
pub mod mutate;
pub mod object;
pub mod path;
pub mod resolve;
pub mod store;
pub mod tree;

