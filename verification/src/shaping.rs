//! Uniform response shaping: the fixed error envelopes every failure is
//! mapped to — generic messages by design, so no internal detail leaks —
//! and the cross-origin headers attached to every response.

use vstd::prelude::*;
use crate::account::WorkflowError;

verus! {

/// Validation-class error codes.
#[derive(Debug, Clone, Copy, PartialEq, Eq, Structural)]
pub enum ErrorCode {
    /// The request was understood but semantically unusable.
    ValidationError,
}

/// Internal-class error codes.
#[derive(Debug, Clone, Copy, PartialEq, Eq, Structural)]
pub enum InternalErrorCode {
    /// Something inside the service failed.
    InternalError,
    /// The request could not be processed as presented.
    Unavailable,
}

/// Not-found-class error codes.
#[derive(Debug, Clone, Copy, PartialEq, Eq, Structural)]
pub enum NotFoundErrorCode {
    /// The named thing does not exist here.
    NotFoundError,
    /// No endpoint answers that path.
    UndefinedEndpoint,
}

/// Envelope for validation-class failures.
#[derive(Debug)]
pub struct ValidationErrorMessageResponse {
    /// Enumerated failure category.
    pub code: Option<ErrorCode>,
    /// Fixed human-readable message.
    pub message: Option<String>,
}

/// Envelope for internal-class failures.
#[derive(Debug)]
pub struct InternalErrorMessageResponse {
    /// Enumerated failure category.
    pub code: Option<InternalErrorCode>,
    /// Fixed human-readable message.
    pub message: Option<String>,
}

/// Envelope for not-found-class failures.
#[derive(Debug)]
pub struct PathUnknownErrorMessageResponse {
    /// Enumerated failure category.
    pub code: Option<NotFoundErrorCode>,
    /// Fixed human-readable message.
    pub message: Option<String>,
}

/// Envelope for a record this service does not hold: a misconfigured
/// identity document and a failed checkpoint read both answer with it.
pub fn resource_not_found() -> (r: PathUnknownErrorMessageResponse)
    ensures
        r.code == Some(NotFoundErrorCode::NotFoundError),
        r.message is Some && r.message->0@ == "Not Found"@,
{
    PathUnknownErrorMessageResponse {
        code: Some(NotFoundErrorCode::NotFoundError),
        message: Some(String::from_str("Not Found")),
    }
}

/// Envelope for a path no endpoint answers: the fallback catcher, distinct
/// from the not-found answer of an endpoint that exists.
pub fn not_found() -> (r: PathUnknownErrorMessageResponse)
    ensures
        r.code == Some(NotFoundErrorCode::UndefinedEndpoint),
        r.message is Some && r.message->0@ == "Not Found"@,
{
    PathUnknownErrorMessageResponse {
        code: Some(NotFoundErrorCode::UndefinedEndpoint),
        message: Some(String::from_str("Not Found")),
    }
}

/// Envelope for a well-formed but semantically unusable request.
pub fn unprocessable_entity() -> (r: ValidationErrorMessageResponse)
    ensures
        r.code == Some(ErrorCode::ValidationError),
        r.message is Some && r.message->0@
            == "The request was well-formed but was unable to be followed due to semantic errors."@,
{
    ValidationErrorMessageResponse {
        code: Some(ErrorCode::ValidationError),
        message: Some(
            String::from_str(
                "The request was well-formed but was unable to be followed due to semantic errors.",
            ),
        ),
    }
}

/// Envelope for a malformed request.
pub fn bad_request() -> (r: ValidationErrorMessageResponse)
    ensures
        r.code == Some(ErrorCode::ValidationError),
        r.message is Some && r.message->0@ == "The request was improperly formed."@,
{
    ValidationErrorMessageResponse {
        code: Some(ErrorCode::ValidationError),
        message: Some(String::from_str("The request was improperly formed.")),
    }
}

/// Envelope for an unauthenticated or unauthorized request: deliberately
/// vague, whatever the guard's actual reason.
pub fn unauthorized() -> (r: InternalErrorMessageResponse)
    ensures
        r.code == Some(InternalErrorCode::Unavailable),
        r.message is Some && r.message->0@ == "Request could not be processed."@,
{
    InternalErrorMessageResponse {
        code: Some(InternalErrorCode::Unavailable),
        message: Some(String::from_str("Request could not be processed.")),
    }
}

/// Envelope for every otherwise-unhandled failure.
pub fn default_catcher() -> (r: InternalErrorMessageResponse)
    ensures
        r.code == Some(InternalErrorCode::InternalError),
        r.message is Some && r.message->0@ == "Internal error."@,
{
    InternalErrorMessageResponse {
        code: Some(InternalErrorCode::InternalError),
        message: Some(String::from_str("Internal error.")),
    }
}

/// Collapses every token-workflow failure to one opaque internal error:
/// the wire answer is identical whether the account was missing or had no
/// email, so the endpoint cannot be used to enumerate accounts.
pub fn workflow_error_envelope(refusal: WorkflowError) -> (r: InternalErrorMessageResponse)
    ensures
        r.code == Some(InternalErrorCode::InternalError),
        r.message is Some && r.message->0@ == "Internal error."@,
{
    match refusal {
        WorkflowError::AccountNotFound => default_catcher(),
        WorkflowError::NoEmailOnFile => default_catcher(),
    }
}

/// The response fairing that stamps cross-origin headers on every response.
pub struct CORS;

/// One response header.
#[derive(Debug)]
pub struct HeaderPair {
    /// Header name.
    pub name: String,
    /// Header value.
    pub value: String,
}

impl CORS {
    /// The four headers set on every outbound response: any origin, the
    /// allowed methods, any request header, and credentialed requests.
    pub fn response_headers() -> (r: Vec<HeaderPair>)
        ensures
            r@.len() == 4,
            r@[0].name@ == "Access-Control-Allow-Origin"@ && r@[0].value@ == "*"@,
            r@[1].name@ == "Access-Control-Allow-Methods"@ && r@[1].value@
                == "POST, GET, PATCH, OPTIONS, DELETE"@,
            r@[2].name@ == "Access-Control-Allow-Headers"@ && r@[2].value@ == "*"@,
            r@[3].name@ == "Access-Control-Allow-Credentials"@ && r@[3].value@ == "true"@,
    {
        let mut headers: Vec<HeaderPair> = Vec::new();
        headers.push(
            HeaderPair {
                name: String::from_str("Access-Control-Allow-Origin"),
                value: String::from_str("*"),
            },
        );
        headers.push(
            HeaderPair {
                name: String::from_str("Access-Control-Allow-Methods"),
                value: String::from_str("POST, GET, PATCH, OPTIONS, DELETE"),
            },
        );
        headers.push(
            HeaderPair {
                name: String::from_str("Access-Control-Allow-Headers"),
                value: String::from_str("*"),
            },
        );
        headers.push(
            HeaderPair {
                name: String::from_str("Access-Control-Allow-Credentials"),
                value: String::from_str("true"),
            },
        );
        headers
    }
}

} // verus!
