//! Duplicate-file detection: size filtering of walked entries, a cancellable
//! scanner, content digests, grouping by digest and cleanup accounting.

pub mod cleanup;
pub mod grouping;
pub mod hashing;
pub mod models;
pub mod scanner;
pub mod session;
