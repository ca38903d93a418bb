//! Verified core of a small toolbox for Debian package dependency data:
//! numbering package names, computing dominators of a dependency map,
//! digesting dose-distcheck YAML event streams, and evaluating a tiny
//! subset of maintainer-script shell.
use vstd::prelude::*;

pub mod dominators;
pub mod dose;
pub mod loader;
pub mod names;
pub mod pkg_ids;
pub mod report;
pub mod shell_ast;
pub mod shell_parse;
pub mod shell_scan;

verus! {

} // verus!
