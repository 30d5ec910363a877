//! A verified directory-tree walking engine.
//!
//! The library enumerates every regular file and symbolic link reachable
//! under one or more root directories and classifies per-node failures
//! (permission errors, races, encoding errors) into recoverable
//! (skip-and-warn) versus fatal (abort-this-subtree) categories.
//!
//! The filesystem itself is presented to the engine as plain data: a tree of
//! [`fs_model::DirItem`] values, each node either a successfully classified
//! entry or the failure that its listing or metadata read produced. The
//! surrounding program performs the actual directory reads and hands the
//! engine the outcome of each fallible step; the engine's emission and
//! error-severity policy is verified for every such outcome.

pub mod report;

pub mod fs_model;

pub mod walk;

pub mod driver;

pub mod laws;
