//! Decision and formatting logic of a judge that compiles, runs and checks
//! submitted programs against the test cases of a problem.

pub mod text;
pub mod types;
pub mod configuration;
pub mod postgres;
pub mod cli;
pub mod consts;
pub mod command;
pub mod code_executor;
pub mod benchmark;
pub mod languages;
pub mod validator;
pub mod problem_executor;
pub mod utils;
pub mod broker;
pub mod redis;
pub mod submission;
pub mod threadpool;
pub mod testcase;
pub mod store;
pub mod checker;
pub mod executor;
pub mod laws;
