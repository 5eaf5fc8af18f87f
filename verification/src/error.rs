//! The failures that the gateway surfaces to a client, and how each is
//! reported.

use vstd::prelude::*;
use vstd::string::*;
use crate::status::{rejection_detail_for, spec_rejection_detail, spec_status_text};

verus! {

/// A failure surfaced to the client of the gateway.
#[derive(Debug, Clone, PartialEq, Eq)]
pub enum GatewayError {
    /// No route's prefix matches the path of the request.
    NoRoute,
    /// The address of an upstream could not be understood; holds the detail.
    InvalidUpstreamAddress(String),
    /// The upstream could not be reached or the transfer broke; holds the
    /// detail.
    UpstreamTransportFailure(String),
    /// The upstream did not answer within the attempt's time limit.
    UpstreamTimeout,
    /// The upstream answered with this status, outside the success range.
    UpstreamRejectedStatus(u16),
    /// The request used a method other than `GET`.
    MethodNotAllowed,
    /// Any failure that fits no other kind.
    Internal,
}

/// The reply sent for a failure: an HTTP status and the two fields of the
/// JSON body.
#[derive(Debug, Clone, PartialEq, Eq)]
pub struct ErrorResponse {
    pub status: u16,
    pub error: String,
    pub message: String,
}

impl GatewayError {
    /// HTTP status that reports this failure.
    pub open spec fn spec_status(&self) -> u16 {
        match self {
            GatewayError::NoRoute => 500,
            GatewayError::InvalidUpstreamAddress(_) => 400,
            GatewayError::UpstreamTransportFailure(_) => 502,
            GatewayError::UpstreamTimeout => 504,
            GatewayError::UpstreamRejectedStatus(_) => 500,
            GatewayError::MethodNotAllowed => 405,
            GatewayError::Internal => 500,
        }
    }

    /// Short category shown in the `error` field of the reply.
    pub open spec fn spec_label(&self) -> Seq<char> {
        match self {
            GatewayError::NoRoute => "Configuration Error"@,
            GatewayError::InvalidUpstreamAddress(_) => "Bad Request"@,
            GatewayError::UpstreamTransportFailure(_) => "Bad Gateway"@,
            GatewayError::UpstreamTimeout => "Gateway Timeout"@,
            GatewayError::UpstreamRejectedStatus(_) => "Configuration Error"@,
            GatewayError::MethodNotAllowed => "Method Not Allowed"@,
            GatewayError::Internal => "Internal Server Error"@,
        }
    }

    /// Human-readable detail shown in the `message` field of the reply.
    pub open spec fn spec_message(&self) -> Seq<char> {
        match self {
            GatewayError::NoRoute => "Configuration error: No matching upstream service found"@,
            GatewayError::InvalidUpstreamAddress(detail) => "Invalid URI: "@ + detail@,
            GatewayError::UpstreamTransportFailure(detail) => "HTTP request failed: "@ + detail@,
            GatewayError::UpstreamTimeout => "Upstream timeout"@,
            GatewayError::UpstreamRejectedStatus(code) => "Configuration error: "@
                + spec_rejection_detail(spec_status_text(*code)),
            GatewayError::MethodNotAllowed => "Method not allowed"@,
            GatewayError::Internal => "Internal server error"@,
        }
    }

    /// HTTP status that reports this failure.
    pub fn status(&self) -> (code: u16)
        ensures
            code == self.spec_status(),
    {
        match self {
            GatewayError::NoRoute => 500,
            GatewayError::InvalidUpstreamAddress(_) => 400,
            GatewayError::UpstreamTransportFailure(_) => 502,
            GatewayError::UpstreamTimeout => 504,
            GatewayError::UpstreamRejectedStatus(_) => 500,
            GatewayError::MethodNotAllowed => 405,
            GatewayError::Internal => 500,
        }
    }

    /// Short category shown in the `error` field of the reply.
    pub fn label(&self) -> (label: &'static str)
        ensures
            label@ == self.spec_label(),
    {
        match self {
            GatewayError::NoRoute => "Configuration Error",
            GatewayError::InvalidUpstreamAddress(_) => "Bad Request",
            GatewayError::UpstreamTransportFailure(_) => "Bad Gateway",
            GatewayError::UpstreamTimeout => "Gateway Timeout",
            GatewayError::UpstreamRejectedStatus(_) => "Configuration Error",
            GatewayError::MethodNotAllowed => "Method Not Allowed",
            GatewayError::Internal => "Internal Server Error",
        }
    }

    /// Human-readable detail shown in the `message` field of the reply.
    pub fn message(&self) -> (message: String)
        ensures
            message@ == self.spec_message(),
    {
        match self {
            GatewayError::NoRoute => String::from_str(
                "Configuration error: No matching upstream service found",
            ),
            GatewayError::InvalidUpstreamAddress(detail) => {
                let mut message = String::from_str("Invalid URI: ");
                message.append(detail.as_str());
                message
            },
            GatewayError::UpstreamTransportFailure(detail) => {
                let mut message = String::from_str("HTTP request failed: ");
                message.append(detail.as_str());
                message
            },
            GatewayError::UpstreamTimeout => String::from_str("Upstream timeout"),
            GatewayError::UpstreamRejectedStatus(code) => {
                let mut message = String::from_str("Configuration error: ");
                let detail = rejection_detail_for(*code);
                message.append(detail.as_str());
                message
            },
            GatewayError::MethodNotAllowed => String::from_str("Method not allowed"),
            GatewayError::Internal => String::from_str("Internal server error"),
        }
    }

    /// The reply sent to the client for this failure.
    pub fn into_response(self) -> (response: ErrorResponse)
        ensures
            response.status == self.spec_status(),
            response.error@ == self.spec_label(),
            response.message@ == self.spec_message(),
    {
        let status = self.status();
        let error = String::from_str(self.label());
        let message = self.message();
        ErrorResponse { status, error, message }
    }
}

} // verus!
