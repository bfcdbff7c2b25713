//! Outcome classification and scoring for a compiler test harness.
//!
//! The library holds the decisions of the harness: how a test file states
//! what it expects, how the run of a compiled test program is read, how that
//! reading is judged against the expectation, and how verdicts add up to a
//! score. Spawning processes and walking directories are left to the caller.
pub mod config;
pub mod pipeline;
pub mod runner;
pub mod test_parser;
pub mod text;
