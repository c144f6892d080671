//! A client-side request-governance layer: a per-route token-bucket rate
//! limiter with a global throttle and bounded retry, together with a
//! cooperative pause/resume/abort state machine for long-running workflows.
//!
//! The scheduling decisions (admission, rate-limit feedback, retry policy,
//! route classification) are verified; an embedding runtime performs the
//! actual HTTP calls and sleeps and feeds plain values back into this core.

pub mod bucket;
pub mod dispatcher;
pub mod error;
pub mod ops;
pub mod retry;
pub mod route;
pub mod types;
pub mod vault;
pub mod workflow;
