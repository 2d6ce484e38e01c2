//! Translation of a package's declared dependency metadata (semantic-version
//! requirements and feature flags) into RPM-style capability expressions.

use vstd::prelude::*;

pub mod crates;
pub mod manifest;
pub mod numfmt;
pub mod parse;
pub mod rpm;
pub mod semver;

verus! {

} // verus!
