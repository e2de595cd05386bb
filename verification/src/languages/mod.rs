//! Per-language build and run commands.

pub mod compiled;
pub mod cpp;
pub mod interpreted;
pub mod java;
pub mod python_3;
