//! The result of one forwarded request, as the retry logic sees it.

use vstd::prelude::*;
use crate::error::GatewayError;
use crate::status::{is_success, spec_is_success};

verus! {

/// Why an attempt produced no response at all.
#[derive(Debug, Clone, PartialEq, Eq)]
pub enum FailureCause {
    /// The upstream could not be reached or the transfer broke; holds the
    /// detail.
    Transport(String),
    /// The attempt ran into its time limit.
    Timeout,
    /// The address of the upstream could not be understood; holds the
    /// detail.
    InvalidAddress(String),
    /// Anything else, such as a body that could not be read.
    Unclassified,
}

/// The result of one attempt against one upstream.
#[derive(Debug, Clone, PartialEq, Eq)]
pub enum AttemptOutcome {
    /// The upstream answered with a status in the success range.
    Success { body: String, status: u16 },
    /// No response was received.
    UpstreamError(FailureCause),
    /// The upstream answered with this status, outside the success range.
    UpstreamRejected(u16),
}

impl FailureCause {
    /// The failure surfaced for this cause.
    pub open spec fn spec_error(self) -> GatewayError {
        match self {
            FailureCause::Transport(detail) => GatewayError::UpstreamTransportFailure(detail),
            FailureCause::Timeout => GatewayError::UpstreamTimeout,
            FailureCause::InvalidAddress(detail) => GatewayError::InvalidUpstreamAddress(detail),
            FailureCause::Unclassified => GatewayError::Internal,
        }
    }

    /// The failure surfaced for this cause.
    pub fn into_error(self) -> (error: GatewayError)
        ensures
            error == self.spec_error(),
    {
        match self {
            FailureCause::Transport(detail) => GatewayError::UpstreamTransportFailure(detail),
            FailureCause::Timeout => GatewayError::UpstreamTimeout,
            FailureCause::InvalidAddress(detail) => GatewayError::InvalidUpstreamAddress(detail),
            FailureCause::Unclassified => GatewayError::Internal,
        }
    }
}

impl AttemptOutcome {
    /// How a received response counts: a success with its body when the
    /// status lies in `200..=299`, else a rejection that keeps the status
    /// and drops the body.
    pub open spec fn spec_from_response(status: u16, body: String) -> AttemptOutcome {
        if spec_is_success(status) {
            AttemptOutcome::Success { body, status }
        } else {
            AttemptOutcome::UpstreamRejected(status)
        }
    }

    /// Whether the attempt failed, so that another upstream is due.
    pub open spec fn is_failure(self) -> bool {
        !(self is Success)
    }

    /// The failure that this outcome surfaces if it is the last one of a
    /// request; `None` for a success.
    pub open spec fn spec_failure(self) -> Option<GatewayError> {
        match self {
            AttemptOutcome::Success { .. } => None,
            AttemptOutcome::UpstreamError(cause) => Some(cause.spec_error()),
            AttemptOutcome::UpstreamRejected(status) => Some(
                GatewayError::UpstreamRejectedStatus(status),
            ),
        }
    }

    /// Classifies a received response by its status.
    pub fn from_response(status: u16, body: String) -> (outcome: AttemptOutcome)
        ensures
            outcome == Self::spec_from_response(status, body),
    {
        if is_success(status) {
            AttemptOutcome::Success { body, status }
        } else {
            AttemptOutcome::UpstreamRejected(status)
        }
    }
}

} // verus!
