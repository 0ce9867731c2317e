//! A session-authenticated sensor-data poller: the decision logic of a
//! pipeline that logs in to a remote service, fetches two categories of
//! delimited text records with a bounded retry policy, parses them into one
//! ordered snapshot, and renders each snapshot as a timestamped line for an
//! append-only log.
//!
//! Everything that decides — judging the login response, classifying fetch
//! attempts, the retry budgets, parsing, schedule timing, and the output
//! line format — is specified and verified here. The outside work of a
//! cycle (the HTTP requests, the sleeps, the file append) is the caller's:
//! it performs one step at a time and hands the outcome back.

pub mod auth;
pub mod fetch;
pub mod parse;
pub mod recorder;
pub mod scan;
pub mod scheduler;
pub mod types;
