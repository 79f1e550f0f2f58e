//! Run one version-control subcommand in every repository under a directory tree.
//!
//! The library decides which walked directories are repositories, binds a command
//! to a repository action, turns execution results into per-repository outcomes
//! and summarises a run. Walking the disk, spawning processes and the worker pool
//! are left to the caller, which hands their results back as plain values.
pub mod action;
pub mod detect;
pub mod dispatch;
