//! The library's error type.
use vstd::prelude::*;
use crate::text::{owned, push_str};

verus! {

#[verifier::external_type_specification]
#[verifier::external_body]
pub struct ExReqwestError(reqwest::Error);

#[verifier::external_type_specification]
#[verifier::external_body]
pub struct ExSerdeJsonError(serde_json::Error);

/// An error the model provider reported.
#[derive(Debug)]
pub enum ApiError {
    /// The request was answered with a non-success HTTP status.
    Status { status: u16, body: String },
    /// The response stream carried an error chunk, with the provider's code
    /// when it sent one.
    Stream { message: String, code: Option<u16> },
    /// The HTTP client failed.
    Reqwest(reqwest::Error),
}

/// What went wrong.
#[derive(Debug)]
pub enum AgentSdkError {
    ApiError(ApiError),
    NetworkError(reqwest::Error),
    SerializationError(serde_json::Error),
    IoError(std::io::Error),
    ToolCallError(String),
    ConfigError(String),
}

/// The HTTP status code that `reqwest::Error::status` reports for an error,
/// as a number.
pub uninterp spec fn status_of(e: reqwest::Error) -> Option<u16>;

/// What `reqwest::Error::is_connect` reports for an error.
pub uninterp spec fn connect_of(e: reqwest::Error) -> bool;

/// What `reqwest::Error::is_request` reports for an error.
pub uninterp spec fn request_of(e: reqwest::Error) -> bool;

/// What `reqwest::Error::is_body` reports for an error.
pub uninterp spec fn body_of(e: reqwest::Error) -> bool;

/// What `reqwest::Error::is_decode` reports for an error.
pub uninterp spec fn decode_of(e: reqwest::Error) -> bool;

/// What `reqwest::Error::is_timeout` reports for an error.
pub uninterp spec fn timeout_of(e: reqwest::Error) -> bool;

/// Whether a client error is a transport failure: connecting, sending, a
/// dropped or undecodable body, or a timeout.
pub open spec fn transport_of(e: reqwest::Error) -> bool {
    connect_of(e) || request_of(e) || body_of(e) || decode_of(e) || timeout_of(e)
}

/// The status code of an error: a client error's own status; an HTTP
/// status the provider answered with; the code of a stream error chunk when
/// it is a valid HTTP status (100 to 999); nothing for any other error.
pub open spec fn status_code_spec(e: AgentSdkError) -> Option<u16> {
    match e {
        AgentSdkError::NetworkError(r) => status_of(r),
        AgentSdkError::ApiError(ApiError::Status { status, .. }) => Some(status),
        AgentSdkError::ApiError(ApiError::Stream { code: Some(c), .. }) => if 100 <= c <= 999 {
            Some(c)
        } else {
            None
        },
        _ => None,
    }
}

/// Whether an error is a transport failure of the HTTP client (as opposed to
/// one the provider reported).
pub open spec fn is_transport_spec(e: AgentSdkError) -> bool {
    match e {
        AgentSdkError::NetworkError(r) => transport_of(r),
        AgentSdkError::ApiError(ApiError::Reqwest(r)) => transport_of(r),
        _ => false,
    }
}

/// Calls `reqwest::Error::status` and gives the code as a number; its
/// answer is named `status_of`.
#[verifier::external_body]
fn reqwest_status(e: &reqwest::Error) -> (r: Option<u16>)
    ensures
        r == status_of(*e),
{
    e.status().map(|s| s.as_u16())
}

/// Calls `reqwest::Error::is_connect`; its answer is named `connect_of`.
#[verifier::external_body]
fn reqwest_is_connect(e: &reqwest::Error) -> (b: bool)
    ensures
        b == connect_of(*e),
{
    e.is_connect()
}

/// Calls `reqwest::Error::is_request`; its answer is named `request_of`.
#[verifier::external_body]
fn reqwest_is_request(e: &reqwest::Error) -> (b: bool)
    ensures
        b == request_of(*e),
{
    e.is_request()
}

/// Calls `reqwest::Error::is_body`; its answer is named `body_of`.
#[verifier::external_body]
fn reqwest_is_body(e: &reqwest::Error) -> (b: bool)
    ensures
        b == body_of(*e),
{
    e.is_body()
}

/// Calls `reqwest::Error::is_decode`; its answer is named `decode_of`.
#[verifier::external_body]
fn reqwest_is_decode(e: &reqwest::Error) -> (b: bool)
    ensures
        b == decode_of(*e),
{
    e.is_decode()
}

/// Calls `reqwest::Error::is_timeout`; its answer is named `timeout_of`.
#[verifier::external_body]
fn reqwest_is_timeout(e: &reqwest::Error) -> (b: bool)
    ensures
        b == timeout_of(*e),
{
    e.is_timeout()
}

impl AgentSdkError {
    /// The HTTP status code of a failed request, if the error has one.
    pub fn status_code(&self) -> (r: Option<u16>)
        ensures
            r == status_code_spec(*self),
    {
        match self {
            AgentSdkError::NetworkError(e) => reqwest_status(e),
            AgentSdkError::ApiError(ApiError::Status { status, .. }) => Some(*status),
            AgentSdkError::ApiError(ApiError::Stream { code: Some(c), .. }) => {
                if 100 <= *c && *c <= 999 {
                    Some(*c)
                } else {
                    None
                }
            },
            _ => None,
        }
    }

    /// Whether the error is a transport failure of the HTTP client
    /// (connecting, sending, a dropped or undecodable body, a timeout)
    /// rather than one the provider reported.
    pub fn is_transport(&self) -> (b: bool)
        ensures
            b == is_transport_spec(*self),
    {
        match self {
            AgentSdkError::NetworkError(e) | AgentSdkError::ApiError(ApiError::Reqwest(e)) => reqwest_is_connect(e)
                || reqwest_is_request(e) || reqwest_is_body(e) || reqwest_is_decode(e) || reqwest_is_timeout(e),
            _ => false,
        }
    }

    /// The message of a tool or configuration error (its `Display` text).
    pub fn message(&self) -> (s: Option<String>)
        ensures
            match *self {
                AgentSdkError::ToolCallError(m) => s matches Some(t) && t@ == "Tool call error: "@ + m@,
                AgentSdkError::ConfigError(m) => s matches Some(t) && t@ == "Configuration error: "@ + m@,
                _ => s is None,
            },
    {
        match self {
            AgentSdkError::ToolCallError(m) => {
                let mut s = owned("Tool call error: ");
                push_str(&mut s, m.as_str());
                Some(s)
            },
            AgentSdkError::ConfigError(m) => {
                let mut s = owned("Configuration error: ");
                push_str(&mut s, m.as_str());
                Some(s)
            },
            _ => None,
        }
    }
}

} // verus!
