//! The protocol response and the transport-level failure taxonomy.
//! A response line is one JSON object: `success` (a boolean,
//! required), `data` (any value, optional), `error` (a string,
//! optional).

use vstd::prelude::*;
use vstd::string::StringExecFns;
use crate::jsonio::{
    json_bool_field, json_str_field, json_nonnull_field, json_str_or_null_field, bool_field,
    str_field, nonnull_field, str_or_null_field, parse_json, text_parses, text_success, text_error,
    text_error_wf, text_data_nonnull,
};

verus! {

/// One decoded response.
#[derive(Debug)]
pub struct Response {
    pub success: bool,
    pub data: Option<serde_json::Value>,
    pub error: Option<String>,
}

/// Why a request attempt failed at the transport; each failure is
/// surfaced once, terminating the attempt, with no retry.
#[derive(Debug, Clone, PartialEq, Eq)]
pub enum TransportError {
    /// The socket could not be connected; carries the error's text.
    ConnectFailed { detail: String },
    /// Writing the request failed or timed out.
    SendFailed { detail: String },
    /// Reading the response line failed or timed out.
    ReceiveFailed { detail: String },
    /// The line received was not a well-formed response; carries the
    /// raw text for diagnostics.
    InvalidResponse { raw: String },
}

impl TransportError {
    /// The single descriptive line surfaced to the user.
    pub fn message(&self) -> (r: String)
        ensures
            r@ == match self {
                TransportError::ConnectFailed { detail } => "Failed to connect: "@ + detail@,
                TransportError::SendFailed { detail } => "Failed to send: "@ + detail@,
                TransportError::ReceiveFailed { detail } => "Failed to read: "@ + detail@,
                TransportError::InvalidResponse { raw } => "Invalid response: "@ + raw@,
            },
    {
        match self {
            TransportError::ConnectFailed { detail } => {
                let mut s = "Failed to connect: ".to_owned();
                s.append(detail.as_str());
                s
            },
            TransportError::SendFailed { detail } => {
                let mut s = "Failed to send: ".to_owned();
                s.append(detail.as_str());
                s
            },
            TransportError::ReceiveFailed { detail } => {
                let mut s = "Failed to read: ".to_owned();
                s.append(detail.as_str());
                s
            },
            TransportError::InvalidResponse { raw } => {
                let mut s = "Invalid response: ".to_owned();
                s.append(raw.as_str());
                s
            },
        }
    }
}

/// Reads a parsed JSON document as a response. `success` must be a
/// boolean; `error` must be absent, `null` or a string; `data` counts
/// only when present and not `null`.
pub fn response_from_value(v: &serde_json::Value) -> (r: Option<Response>)
    ensures
        (r is Some) == (json_bool_field(*v, "success"@) is Some && json_str_or_null_field(
            *v,
            "error"@,
        )),
        r matches Some(resp) ==> {
            &&& json_bool_field(*v, "success"@) == Some(resp.success)
            &&& (resp.data is Some) == json_nonnull_field(*v, "data"@)
            &&& match resp.error {
                Some(e) => json_str_field(*v, "error"@) == Some(e@),
                None => json_str_field(*v, "error"@) is None,
            }
        },
{
    match bool_field(v, "success") {
        Some(success) => {
            if str_or_null_field(v, "error") {
                let data = nonnull_field(v, "data");
                let error = str_field(v, "error");
                Some(Response { success, data, error })
            } else {
                None
            }
        },
        None => None,
    }
}

/// Decodes one received line. The line is accepted exactly when it is
/// one JSON document whose `success` is a boolean and whose `error`
/// is absent, `null` or a string; the response then carries those
/// fields and the non-`null` `data` value. Anything else is an
/// `InvalidResponse` carrying the raw text.
pub fn parse_response(line: &str) -> (r: Result<Response, TransportError>)
    ensures
        (r is Ok) == (text_parses(line@) && text_success(line@) is Some && text_error_wf(line@)),
        r matches Ok(resp) ==> {
            &&& Some(resp.success) == text_success(line@)
            &&& (resp.data is Some) == text_data_nonnull(line@)
            &&& match resp.error {
                Some(e) => text_error(line@) == Some(e@),
                None => text_error(line@) is None,
            }
        },
        r matches Err(e) ==> e matches TransportError::InvalidResponse { raw } && raw@ == line@,
{
    match parse_json(line) {
        Some(v) => match response_from_value(&v) {
            Some(resp) => Ok(resp),
            None => Err(TransportError::InvalidResponse { raw: line.to_owned() }),
        },
        None => Err(TransportError::InvalidResponse { raw: line.to_owned() }),
    }
}

} // verus!
