//! The errors the relay answers requests with.
use vstd::prelude::*;
use vstd::string::*;

verus! {

broadcast use vstd::string::group_string_axioms;

/// What went wrong while serving a request. Errors that come from outside
/// components carry that component's description of the error.
#[derive(Debug, Clone, PartialEq, Eq)]
pub enum AppError {
    InvalidCredentials,
    InvalidToken,
    TunnelNotFound,
    TunnelSendError,
    TunnelResponseError,
    WebSocketError(String),
    JsonError(String),
    HyperError(String),
    ReqwestError(String),
    JwtError(String),
    IoError(String),
    Other(String),
}

/// The HTTP status an error is answered with.
pub open spec fn error_status(e: AppError) -> u16 {
    match e {
        AppError::InvalidCredentials => 401,
        AppError::InvalidToken => 401,
        AppError::TunnelNotFound => 404,
        AppError::TunnelSendError => 500,
        AppError::TunnelResponseError => 500,
        AppError::WebSocketError(_) => 500,
        AppError::JsonError(_) => 400,
        AppError::HyperError(_) => 500,
        AppError::ReqwestError(_) => 500,
        AppError::JwtError(_) => 401,
        AppError::IoError(_) => 500,
        AppError::Other(_) => 500,
    }
}

/// The fixed part of the message an error is answered with, and the
/// description it carries, if any.
pub open spec fn error_message_parts(e: AppError) -> (Seq<char>, Option<Seq<char>>) {
    match e {
        AppError::InvalidCredentials => ("Invalid credentials"@, None),
        AppError::InvalidToken => ("Invalid token"@, None),
        AppError::TunnelNotFound => ("Tunnel not found"@, None),
        AppError::TunnelSendError => ("Failed to send request to tunnel"@, None),
        AppError::TunnelResponseError => ("Failed to get response from tunnel"@, None),
        AppError::WebSocketError(d) => ("WebSocket error: "@, Some(d@)),
        AppError::JsonError(d) => ("JSON error: "@, Some(d@)),
        AppError::HyperError(d) => ("Hyper error: "@, Some(d@)),
        AppError::ReqwestError(d) => ("Reqwest error: "@, Some(d@)),
        AppError::JwtError(d) => ("JWT error: "@, Some(d@)),
        AppError::IoError(d) => ("IO error: "@, Some(d@)),
        AppError::Other(d) => ("Other error: "@, Some(d@)),
    }
}

/// The message an error is answered with.
pub open spec fn error_message(e: AppError) -> Seq<char> {
    let (head, detail) = error_message_parts(e);
    match detail {
        Some(d) => head + d,
        None => head,
    }
}

fn with_detail(head: &str, detail: &String) -> (s: String)
    ensures
        s@ == head@ + detail@,
{
    let mut s = String::from_str(head);
    s.append(detail.as_str());
    s
}

impl AppError {
    /// The HTTP status and message this error is answered with.
    pub fn response_parts(&self) -> (r: (u16, String))
        ensures
            r.0 == error_status(*self),
            r.1@ == error_message(*self),
    {
        match self {
            AppError::InvalidCredentials => (401, String::from_str("Invalid credentials")),
            AppError::InvalidToken => (401, String::from_str("Invalid token")),
            AppError::TunnelNotFound => (404, String::from_str("Tunnel not found")),
            AppError::TunnelSendError => (500, String::from_str("Failed to send request to tunnel")),
            AppError::TunnelResponseError => (
                500,
                String::from_str("Failed to get response from tunnel"),
            ),
            AppError::WebSocketError(d) => (500, with_detail("WebSocket error: ", d)),
            AppError::JsonError(d) => (400, with_detail("JSON error: ", d)),
            AppError::HyperError(d) => (500, with_detail("Hyper error: ", d)),
            AppError::ReqwestError(d) => (500, with_detail("Reqwest error: ", d)),
            AppError::JwtError(d) => (401, with_detail("JWT error: ", d)),
            AppError::IoError(d) => (500, with_detail("IO error: ", d)),
            AppError::Other(d) => (500, with_detail("Other error: ", d)),
        }
    }
}

} // verus!
