//! Incremental build core of a package-oriented build driver.
//!
//! The library decides *which* compilations a build must run. It owns the
//! compilation context (platform requirements over a resolved dependency
//! graph, compiler probe results, output filename mapping), the on-disk
//! layout of a build directory, and the fingerprint engine that classifies
//! every target as `Fresh` or `Dirty` against the previous build.
//!
//! All filesystem effects are produced as [`work::Work`] values that an
//! external scheduler executes; the core itself is pure and fully verified.

use vstd::prelude::*;

pub mod context;
pub mod errors;
pub mod fingerprint;
pub mod git;
pub mod hash;
pub mod layout;
pub mod package;
pub mod requirements;
pub mod source;
pub mod strutil;
pub mod work;

verus! {

/// Freshness of a target with respect to the previous build.
#[derive(Clone, Copy, Debug, PartialEq, Eq, Structural)]
pub enum Freshness {
    Fresh,
    Dirty,
}

} // verus!
