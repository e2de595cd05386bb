//! Fixed locations.

use vstd::prelude::*;

verus! {

/// The sandbox program that runs submissions.
pub const NSJAIL_DIR: &'static str = "/bin/nsjail";

} // verus!
