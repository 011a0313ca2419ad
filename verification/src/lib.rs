//! Verified core of a modpack deployment pipeline.
//!
//! The pipeline keeps a game installation in sync with a remote content
//! repository in three stages: the working copy is synchronised with the
//! remote branch, its content is overlaid onto the installation directory
//! (clearing the paths an overwrite manifest names, then copying every file
//! the target lacks), and a required launcher binary is provisioned — by a
//! checked streamed download and archive extraction — only when missing.
//!
//! This crate holds the decisions and data transformations of those stages,
//! each with a proved contract; the surrounding program performs the
//! filesystem, network, repository and process work the contracts are about.

pub mod paths;
pub mod manifest;
pub mod overlay;
pub mod transfer;
pub mod provision;
pub mod repo;
pub mod archive;
