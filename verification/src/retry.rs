//! Retry policy and jitter: what happens after each attempt to send one
//! request.
//!
//! Throttle responses are retried indefinitely — they are a scheduling
//! signal, not a failure. Transport failures and server-side errors are
//! retried with linear backoff up to a small fixed bound of attempts, then
//! surfaced. Everything else is delivered to the caller at once.

use vstd::prelude::*;

use crate::error::ErrorKind;

verus! {

/// Sends permitted for one request before a transport or server failure
/// becomes terminal.
pub const MAX_ATTEMPTS: u32 = 3;

/// Smallest randomized delay injected before a mutating call.
pub const JITTER_MIN_MS: u64 = 100;

/// Width of the jitter window.
pub const JITTER_SPAN_MS: u64 = 200;

/// Request methods the dispatcher distinguishes.
#[derive(Clone, Copy, Debug, PartialEq, Eq, Structural)]
pub enum HttpMethod {
    Get,
    Post,
    Put,
    Patch,
    Delete,
}

/// How one attempt to send a request ended.
#[derive(Clone, Copy, Debug, PartialEq, Eq, Structural)]
pub enum SendOutcome {
    /// The call never completed: connection failure.
    TransportError,
    /// The call completed with this status code.
    Response { status: u16 },
}

/// The classes of response status the policy reacts to.
#[derive(Clone, Copy, Debug, PartialEq, Eq, Structural)]
pub enum StatusClass {
    /// A success status: deliver to the caller.
    Success,
    /// A throttle signal: absorbed, the request is re-admitted.
    Throttle,
    /// A server-side failure: retried within the attempt bound.
    ServerError,
    /// Any other status: the server considered the request invalid.
    ClientError,
}

/// What the dispatch loop does next with one request.
#[derive(Clone, Copy, Debug, PartialEq, Eq, Structural)]
pub enum Directive {
    /// Deliver the response to the caller.
    Deliver,
    /// Deliver a terminal error of this kind to the caller.
    Reject { kind: ErrorKind },
    /// Go back to admission immediately (the throttle wait is already in the
    /// bucket state).
    RetryImmediately,
    /// Sleep this long, then go back to admission.
    RetryAfter { delay_ms: u64 },
}

/// Status classification: the throttle status, success range, server-error
/// range, and everything else.
pub open spec fn spec_classify_status(status: u16) -> StatusClass {
    if status == 429 {
        StatusClass::Throttle
    } else if 200 <= status < 300 {
        StatusClass::Success
    } else if 500 <= status < 600 {
        StatusClass::ServerError
    } else {
        StatusClass::ClientError
    }
}

/// Exec mirror of `spec_classify_status`.
pub fn classify_status(status: u16) -> (c: StatusClass)
    ensures
        c == spec_classify_status(status),
{
    if status == 429 {
        StatusClass::Throttle
    } else if 200 <= status && status < 300 {
        StatusClass::Success
    } else if 500 <= status && status < 600 {
        StatusClass::ServerError
    } else {
        StatusClass::ClientError
    }
}

/// The retry decision after a send, given how many sends this request has
/// already used (`attempts_made`, counting the one that just ended):
/// successes and non-retryable client errors are delivered; a throttle is
/// always re-admitted; transport and server failures back off linearly —
/// `attempts_made` seconds — until the attempt bound, then turn terminal.
pub open spec fn spec_after_send(attempts_made: u32, outcome: SendOutcome) -> Directive {
    match outcome {
        SendOutcome::TransportError => {
            if attempts_made < MAX_ATTEMPTS {
                Directive::RetryAfter { delay_ms: ((attempts_made as u64) * 1000) as u64 }
            } else {
                Directive::Reject { kind: ErrorKind::TransportFailure }
            }
        },
        SendOutcome::Response { status } => {
            match spec_classify_status(status) {
                StatusClass::Success => Directive::Deliver,
                StatusClass::Throttle => Directive::RetryImmediately,
                StatusClass::ClientError => Directive::Reject { kind: ErrorKind::UpstreamError },
                StatusClass::ServerError => {
                    if attempts_made < MAX_ATTEMPTS {
                        Directive::RetryAfter { delay_ms: ((attempts_made as u64) * 1000) as u64 }
                    } else {
                        Directive::Reject { kind: ErrorKind::UpstreamError }
                    }
                },
            }
        },
    }
}

/// Decide what the dispatch loop does after one send.
pub fn after_send(attempts_made: u32, outcome: SendOutcome) -> (d: Directive)
    ensures
        d == spec_after_send(attempts_made, outcome),
{
    match outcome {
        SendOutcome::TransportError => {
            if attempts_made < MAX_ATTEMPTS {
                Directive::RetryAfter { delay_ms: (attempts_made as u64) * 1000 }
            } else {
                Directive::Reject { kind: ErrorKind::TransportFailure }
            }
        },
        SendOutcome::Response { status } => {
            match classify_status(status) {
                StatusClass::Success => Directive::Deliver,
                StatusClass::Throttle => Directive::RetryImmediately,
                StatusClass::ClientError => Directive::Reject { kind: ErrorKind::UpstreamError },
                StatusClass::ServerError => {
                    if attempts_made < MAX_ATTEMPTS {
                        Directive::RetryAfter { delay_ms: (attempts_made as u64) * 1000 }
                    } else {
                        Directive::Reject { kind: ErrorKind::UpstreamError }
                    }
                },
            }
        },
    }
}

/// A throttle response never turns terminal, however many sends a request
/// has already used: it is absorbed and re-admitted.
pub proof fn lemma_throttle_never_surfaced(attempts_made: u32)
    ensures
        spec_after_send(attempts_made, SendOutcome::Response { status: 429 })
            == Directive::RetryImmediately,
{
}

/// Whether a request mutates remote state and therefore receives jitter
/// before being sent.
pub fn needs_jitter(method: HttpMethod) -> (b: bool)
    ensures
        b == (method != HttpMethod::Get),
{
    match method {
        HttpMethod::Get => false,
        _ => true,
    }
}

/// Relies on `rand::thread_rng` and `rand::Rng::gen_range`: returns a value
/// uniformly drawn below the bound; panics only on an empty range, which the
/// precondition excludes.
#[verifier::external_body]
fn random_below(bound: u64) -> (r: u64)
    requires
        bound > 0,
    ensures
        r < bound,
{
    rand::Rng::gen_range(&mut rand::thread_rng(), 0..bound)
}

/// The randomized delay injected before a mutating call, spreading bursts of
/// queued mutations after a window opens.
pub fn jitter_delay_ms() -> (d: u64)
    ensures
        JITTER_MIN_MS <= d < JITTER_MIN_MS + JITTER_SPAN_MS,
{
    let r = random_below(JITTER_SPAN_MS);
    JITTER_MIN_MS + r
}

} // verus!
