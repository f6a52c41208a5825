//! Per-community user registry and leaderboard assembly.
//!
//! A community keeps an insertion-ordered list of external identifiers that
//! were registered with an external ranking service.  On demand, a ranked
//! view over the current scores of those identifiers is assembled: scores are
//! fetched one by one (by the caller, which hands the results in), ordered
//! descending, truncated to the top fifteen, and rendered as display fields.

pub mod leaderboard;
pub mod registry;
pub mod render;
