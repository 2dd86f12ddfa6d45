//! A small library behind a routine that keeps a remote repository's README
//! fresh: it models the fixed run plan (reset, clone, append a timestamped
//! line, stage, commit, push), the exact text of the appended line, and the
//! fixed configuration strings, and proves the properties the routine relies
//! on: the plan is linear and fail-fast, and the appended lines are
//! well-formed and distinct for distinct timestamps.

pub mod config;
pub mod line;
pub mod machine;
