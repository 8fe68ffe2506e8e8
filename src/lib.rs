//! A concurrent URL fetcher's decision logic: timestamped diagnostic lines,
//! a per-URL retry state machine driven by exponential backoff, and the
//! dispatcher that aggregates the outcomes of all URLs.

use vstd::prelude::*;

pub mod diag;
pub mod dispatch;
pub mod fetch;

verus! {

/// The `User-Agent` header sent with every request: `<tool-name>/<version>`.
pub const USER_AGENT: &'static str = "fetchurls/0.1.0";

} // verus!
