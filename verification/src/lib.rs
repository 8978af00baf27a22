//! Checks that source files carry a license header matching an approved
//! template.  A template is free text in which the token `{{year}}` stands
//! for a copyright year or an inclusive year range; it compiles to a
//! matcher that tests whether a file's content contains the license text
//! anywhere, tolerating year drift in the variable parts.

use vstd::prelude::*;

/// The run's configuration.
pub mod config;
/// The failures the library and its callers distinguish.
pub mod error;
/// The compiled matcher and the conformance check.
pub mod matcher;
/// Recognizing which paths name Rust source files.
pub mod paths;
/// The template format and its compilation into a pattern text.
pub mod template;

verus! {

/// Outcome of testing one file's content against a compiled matcher:
/// either the content carries the license header, or it does not.
#[derive(Clone, Copy, Debug, PartialEq, Eq, Structural)]
pub enum Conformance {
    Conform,
    Conflict,
}

} // verus!
