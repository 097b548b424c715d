//! A workspace-hygiene checker for multi-package repositories.
//!
//! The crate models a resolved package dependency graph together with the
//! version-control file listing as one immutable snapshot, and runs a
//! configurable set of lint rules against it: whole-project rules over the
//! dependency graph (banned dependencies, duplicate direct dependencies,
//! duplicate git dependencies), per-package rules (publish consistency,
//! naming and directory conventions, enforced attributes), per-file-path
//! rules and per-file-content rules.  The engine dispatches every rule over
//! every target of its granularity, collects the emitted messages and skip
//! records, and honours a fail-fast mode.
#![verifier::loop_isolation(false)]

pub mod allowed_paths;
pub mod context;
pub mod engine;
pub mod errors;
pub mod git;
pub mod globs;
pub mod graph;
pub mod graph_rules;
pub mod license;
pub mod lint;
pub mod message;
pub mod playground;
pub mod strutil;
pub mod whitespace;

use vstd::prelude::*;

verus! {

} // verus!
