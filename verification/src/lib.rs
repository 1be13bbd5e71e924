//! Build-time helper for compiling a sub-project as a dependency of a larger
//! build: it plans the external build command, derives an isolated output
//! directory, parses the toolchain-generated dependency descriptor, and plans
//! the relocation of the produced artifact together with the rebuild triggers
//! to announce upward.
//!
//! The library holds the decision and parsing logic; running the external
//! build, enumerating descriptor files and moving artifacts are filesystem
//! actions performed by the embedding program.

use vstd::prelude::*;

pub mod descriptor;
pub mod errors;
pub mod invoke;
pub mod paths;
pub mod relocate;

pub use invoke::build_target_dep;
pub use invoke::TargetDep;

verus! {

/// Relies on `String::push` of std: appends the character to the end of the
/// string.
pub assume_specification[ String::push ](s: &mut String, ch: char)
    ensures
        final(s)@ == old(s)@.push(ch),
;

} // verus!
