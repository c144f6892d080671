//! The error taxonomy surfaced to callers.
//!
//! Throttle responses are never surfaced — they are absorbed by the
//! dispatcher as a scheduling signal. What callers can see: a transport
//! failure after retry exhaustion, an upstream rejection, or the dispatcher
//! itself being unavailable.

use vstd::prelude::*;

verus! {

/// Which terminal failure a request ended in.
#[derive(Clone, Copy, Debug, PartialEq, Eq, Structural)]
pub enum ErrorKind {
    /// Network-level failure, surfaced after the retry bound is exhausted.
    TransportFailure,
    /// The server completed the call but rejected the request.
    UpstreamError,
    /// The dispatcher itself is unavailable; fatal, indicates shutdown.
    ChannelClosed,
}

/// A caller-facing error: a short message, a stable machine-readable code,
/// and optional technical detail.
#[derive(Debug)]
pub struct AppError {
    pub user_message: String,
    pub error_code: String,
    pub technical_details: Option<String>,
}

impl Default for AppError {
    fn default() -> (e: AppError)
        ensures
            e.user_message@ == "An internal system error occurred."@,
            e.error_code@ == "internal_error"@,
            e.technical_details is None,
    {
        AppError {
            user_message: String::from_str("An internal system error occurred."),
            error_code: String::from_str("internal_error"),
            technical_details: None,
        }
    }
}

impl AppError {
    /// The error delivered when the network failed on every permitted
    /// attempt.
    pub fn transport_failure(details: Option<String>) -> (e: AppError)
        ensures
            e.user_message@ == "Network request failed."@,
            e.error_code@ == "network_error"@,
            e.technical_details == details,
    {
        AppError {
            user_message: String::from_str("Network request failed."),
            error_code: String::from_str("network_error"),
            technical_details: details,
        }
    }

    /// The error delivered when the server completed the call but rejected
    /// the request.
    pub fn upstream_error(details: Option<String>) -> (e: AppError)
        ensures
            e.user_message@ == "The server rejected the request."@,
            e.error_code@ == "upstream_error"@,
            e.technical_details == details,
    {
        AppError {
            user_message: String::from_str("The server rejected the request."),
            error_code: String::from_str("upstream_error"),
            technical_details: details,
        }
    }

    /// The error delivered when the dispatcher's inbox is gone.
    pub fn channel_closed() -> (e: AppError)
        ensures
            e.user_message@ == "Rate limiter connection failure."@,
            e.error_code@ == "limiter_offline"@,
            e.technical_details is None,
    {
        AppError {
            user_message: String::from_str("Rate limiter connection failure."),
            error_code: String::from_str("limiter_offline"),
            technical_details: None,
        }
    }

    /// The error delivered when the dispatcher dropped a request's response
    /// channel without answering.
    pub fn response_lost() -> (e: AppError)
        ensures
            e.user_message@ == "Rate limiter communication timeout."@,
            e.error_code@ == "limiter_timeout"@,
            e.technical_details is None,
    {
        AppError {
            user_message: String::from_str("Rate limiter communication timeout."),
            error_code: String::from_str("limiter_timeout"),
            technical_details: None,
        }
    }

    /// One-line rendering of the error, for logs and messages.
    pub fn describe(&self) -> (r: String)
        ensures
            r@ == self.user_message@ + " ("@ + self.error_code@ + ")"@ + (
            match self.technical_details {
                Some(d) => ": "@ + d@,
                None => Seq::<char>::empty(),
            }),
    {
        let mut out = self.user_message.clone();
        out.append(" (");
        out.append(self.error_code.as_str());
        out.append(")");
        match &self.technical_details {
            Some(d) => {
                out.append(": ");
                out.append(d.as_str());
            },
            None => {},
        }
        proof {
            assert(out@ =~= self.user_message@ + " ("@ + self.error_code@ + ")"@ + (
            match self.technical_details {
                Some(d) => ": "@ + d@,
                None => Seq::<char>::empty(),
            }));
        }
        out
    }

    /// The error for a terminal failure of the given kind.
    pub fn for_kind(kind: ErrorKind, details: Option<String>) -> (e: AppError)
        ensures
            kind == ErrorKind::TransportFailure ==> e.error_code@ == "network_error"@
                && e.technical_details == details,
            kind == ErrorKind::UpstreamError ==> e.error_code@ == "upstream_error"@
                && e.technical_details == details,
            kind == ErrorKind::ChannelClosed ==> e.error_code@ == "limiter_offline"@,
    {
        match kind {
            ErrorKind::TransportFailure => AppError::transport_failure(details),
            ErrorKind::UpstreamError => AppError::upstream_error(details),
            ErrorKind::ChannelClosed => AppError::channel_closed(),
        }
    }
}

} // verus!
