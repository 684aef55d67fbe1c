//! The core of a workspace-scoped file explorer.
//!
//! One directory, the workspace, is open at a time. Callers name paths
//! relative to it; the core validates every path against the workspace
//! before anything happens on its behalf, plans each operation as a
//! sequence of requests to the file system, and turns what the file system
//! reports into listings.
//!
//! The core itself never touches a disk, a clock or a dialog. Whatever it
//! needs from outside it asks for as a plain value, and whoever embeds it
//! carries the request out and hands the reply back:
//!
//! - [`path`] holds the lexical rules for paths,
//! - [`validation`] decides whether a path lies inside the workspace,
//! - [`operations`] plans reads, atomic writes, creations, deletions and
//!   renames, and [`copying`] states what a copy across storage volumes
//!   does to a whole tree,
//! - [`explorer`] makes sorted listings and pages of them,
//! - [`upload`] stores images below the workspace,
//! - [`commands`] ties validation and operations together for each thing
//!   a caller can ask,
//! - [`state`] holds which workspace is open and what must be saved,
//! - [`fs`], [`types`], [`error`] and [`text`] hold the values and helpers
//!   that the others share.

pub mod commands;
pub mod copying;
pub mod error;
pub mod explorer;
pub mod fs;
pub mod operations;
pub mod path;
pub mod state;
pub mod text;
pub mod types;
pub mod upload;
pub mod validation;
