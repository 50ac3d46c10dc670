//! Errors reported by the SDK.

use vstd::prelude::*;
use vstd::string::*;
use crate::text::{opt_str_view, opt_view, text_equal};

verus! {

#[verifier::external_type_specification]
#[verifier::external_body]
pub struct ExReqwestError(reqwest::Error);

#[verifier::external_type_specification]
#[verifier::external_body]
pub struct ExJsonError(serde_json::Error);

/// Main error type of SDK operations.
#[derive(Debug)]
pub enum TencentCloudError {
    /// A transport failure.
    Network(reqwest::Error),
    /// A JSON encoding or decoding failure.
    Json(serde_json::Error),
    /// An error that the API returned.
    Api { code: String, message: String, request_id: Option<String> },
    /// Missing or unusable credentials.
    Auth(String),
    /// An unusable configuration.
    Config(String),
    /// A request parameter that failed validation.
    Parameter(String),
    /// The keyed hash could not be set up.
    Signature(String),
    /// A request that timed out.
    Timeout(String),
    /// Any other failure.
    Other(String),
}

/// Relies on `reqwest::Error`'s `Display` for the message of a transport failure.
#[verifier::external_body]
fn network_message(e: &reqwest::Error) -> String {
    e.to_string()
}

/// Relies on `serde_json::Error`'s `Display` for the message of a JSON failure.
#[verifier::external_body]
fn json_message(e: &serde_json::Error) -> String {
    e.to_string()
}

/// The report of an API error, with its request ID when there is one.
pub open spec fn api_report(code: Seq<char>, message: Seq<char>, request_id: Option<Seq<char>>) -> Seq<
    char,
> {
    match request_id {
        Some(id) => "API Error: "@ + code + " - "@ + message + " (Request ID: "@ + id + ")"@,
        None => "API Error: "@ + code + " - "@ + message,
    }
}

/// The report of an error that carries a message of its own: its kind, then the message.
pub open spec fn message_report(e: TencentCloudError) -> Option<Seq<char>> {
    match e {
        TencentCloudError::Auth(m) => Some("Authentication error: "@ + m@),
        TencentCloudError::Config(m) => Some("Configuration error: "@ + m@),
        TencentCloudError::Parameter(m) => Some("Parameter error: "@ + m@),
        TencentCloudError::Signature(m) => Some("Signature error: "@ + m@),
        TencentCloudError::Timeout(m) => Some("Timeout error: "@ + m@),
        TencentCloudError::Other(m) => Some("Error: "@ + m@),
        _ => None,
    }
}

impl TencentCloudError {
    /// An API error without a request ID.
    pub fn api(code: &str, message: &str) -> (r: Self)
        ensures
            r matches TencentCloudError::Api { code: c, message: m, request_id: None } && c@
                == code@ && m@ == message@,
    {
        TencentCloudError::Api {
            code: String::from_str(code),
            message: String::from_str(message),
            request_id: None,
        }
    }

    /// An API error with an optional request ID.
    pub fn api_with_request_id(code: &str, message: &str, request_id: Option<&str>) -> (r: Self)
        ensures
            r matches TencentCloudError::Api { code: c, message: m, request_id: id } && c@
                == code@ && m@ == message@ && opt_view(id) == opt_str_view(request_id),
    {
        let id = match request_id {
            Some(s) => Some(String::from_str(s)),
            None => None,
        };
        TencentCloudError::Api {
            code: String::from_str(code),
            message: String::from_str(message),
            request_id: id,
        }
    }

    /// An authentication error.
    pub fn auth(message: &str) -> (r: Self)
        ensures
            r matches TencentCloudError::Auth(m) && m@ == message@,
    {
        TencentCloudError::Auth(String::from_str(message))
    }

    /// A configuration error.
    pub fn config(message: &str) -> (r: Self)
        ensures
            r matches TencentCloudError::Config(m) && m@ == message@,
    {
        TencentCloudError::Config(String::from_str(message))
    }

    /// A parameter error.
    pub fn parameter(message: &str) -> (r: Self)
        ensures
            r matches TencentCloudError::Parameter(m) && m@ == message@,
    {
        TencentCloudError::Parameter(String::from_str(message))
    }

    /// A signature error.
    pub fn signature(message: &str) -> (r: Self)
        ensures
            r matches TencentCloudError::Signature(m) && m@ == message@,
    {
        TencentCloudError::Signature(String::from_str(message))
    }

    /// A timeout error.
    pub fn timeout(message: &str) -> (r: Self)
        ensures
            r matches TencentCloudError::Timeout(m) && m@ == message@,
    {
        TencentCloudError::Timeout(String::from_str(message))
    }

    /// Any other error.
    pub fn other(message: &str) -> (r: Self)
        ensures
            r matches TencentCloudError::Other(m) && m@ == message@,
    {
        TencentCloudError::Other(String::from_str(message))
    }

    /// The error code of an API error.
    pub fn code(&self) -> (r: Option<&str>)
        ensures
            match self {
                TencentCloudError::Api { code, .. } => r matches Some(c) && c@ == code@,
                _ => r is None,
            },
    {
        match self {
            TencentCloudError::Api { code, .. } => Some(code.as_str()),
            _ => None,
        }
    }

    /// The request ID of an API error, when it has one.
    pub fn request_id(&self) -> (r: Option<&str>)
        ensures
            match self {
                TencentCloudError::Api { request_id: Some(id), .. } => r matches Some(s) && s@
                    == id@,
                _ => r is None,
            },
    {
        match self {
            TencentCloudError::Api { request_id: Some(id), .. } => Some(id.as_str()),
            _ => None,
        }
    }

    /// Whether this is an API error with the given code.
    pub fn is_api_error(&self, error_code: &str) -> (r: bool)
        ensures
            r == (self matches TencentCloudError::Api { code, .. } && code@ == error_code@),
    {
        match self {
            TencentCloudError::Api { code, .. } => text_equal(code.as_str(), error_code),
            _ => false,
        }
    }

    /// Whether this is a transport failure.
    pub fn is_network_error(&self) -> (r: bool)
        ensures
            r == (self is Network),
    {
        match self {
            TencentCloudError::Network(_) => true,
            _ => false,
        }
    }

    /// Whether this is a timeout.
    pub fn is_timeout_error(&self) -> (r: bool)
        ensures
            r == (self is Timeout),
    {
        match self {
            TencentCloudError::Timeout(_) => true,
            _ => false,
        }
    }

    /// A one-line report of the error: its kind and message, and for an API
    /// error its code and request ID.
    pub fn print_all(&self) -> (r: String)
        ensures
            self matches TencentCloudError::Api { code, message, request_id } ==> r@
                == api_report(code@, message@, opt_view(*request_id)),
            message_report(*self) matches Some(t) ==> r@ == t,
            self is Network ==> r@.len() >= "Network error: "@.len() && r@.subrange(
                0,
                "Network error: "@.len() as int,
            ) == "Network error: "@,
            self is Json ==> r@.len() >= "JSON error: "@.len() && r@.subrange(
                0,
                "JSON error: "@.len() as int,
            ) == "JSON error: "@,
    {
        match self {
            TencentCloudError::Api { code, message, request_id } => {
                let mut s = String::from_str("API Error: ");
                s.append(code.as_str());
                s.append(" - ");
                s.append(message.as_str());
                match request_id {
                    Some(id) => {
                        s.append(" (Request ID: ");
                        s.append(id.as_str());
                        s.append(")");
                    },
                    None => {},
                }
                s
            },
            TencentCloudError::Network(e) => {
                let s = String::from_str("Network error: ");
                let m = network_message(e);
                let r = s.concat(m.as_str());
                assert(r@.subrange(0, "Network error: "@.len() as int) =~= "Network error: "@);
                r
            },
            TencentCloudError::Json(e) => {
                let s = String::from_str("JSON error: ");
                let m = json_message(e);
                let r = s.concat(m.as_str());
                assert(r@.subrange(0, "JSON error: "@.len() as int) =~= "JSON error: "@);
                r
            },
            TencentCloudError::Auth(m) => String::from_str("Authentication error: ").concat(
                m.as_str(),
            ),
            TencentCloudError::Config(m) => String::from_str("Configuration error: ").concat(
                m.as_str(),
            ),
            TencentCloudError::Parameter(m) => String::from_str("Parameter error: ").concat(
                m.as_str(),
            ),
            TencentCloudError::Signature(m) => String::from_str("Signature error: ").concat(
                m.as_str(),
            ),
            TencentCloudError::Timeout(m) => String::from_str("Timeout error: ").concat(
                m.as_str(),
            ),
            TencentCloudError::Other(m) => String::from_str("Error: ").concat(m.as_str()),
        }
    }
}

} // verus!
