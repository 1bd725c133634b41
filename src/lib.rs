//! A test harness for programs run by a stack-machine interpreter: annotation
//! dispatch, call mocking, step budgets and outcome classification.
pub mod cache;
pub mod cli;
pub mod context;
pub mod dispatch;
pub mod error;
pub mod hint;
pub mod hook;
pub mod list;
pub mod machine;
pub mod mock;
pub mod outcome;
pub mod pattern;
pub mod scan;
pub mod text;
