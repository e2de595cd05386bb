//! Command-line switches.

use vstd::prelude::*;
use crate::text::{decimal, push_str, str_equals, u128_to_string};

verus! {

/// How much the judge logs.
#[derive(Debug, PartialEq, Eq, Structural, Clone, Copy)]
pub enum TracingMode {
    Debug,
    Info,
}

/// Debug logging when the first argument after the program name is `--debug`,
/// informational logging otherwise.
pub fn get_tracing_mode(args: &Vec<String>) -> (r: TracingMode)
    ensures
        r == (if args@.len() > 1 && args@[1]@ == "--debug"@ {
            TracingMode::Debug
        } else {
            TracingMode::Info
        }),
{
    if args.len() > 1 && str_equals(args[1].as_str(), "--debug") {
        return TracingMode::Debug;
    }
    TracingMode::Info
}

} // verus!
