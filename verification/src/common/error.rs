//! The error type of the servers and its messages.

use vstd::prelude::*;
use crate::text::{decimal, decimal_string, join2, join3};

verus! {

#[verifier::external_type_specification]
#[verifier::external_body]
pub struct ExIoError(std::io::Error);

#[verifier::external_type_specification]
#[verifier::external_body]
pub struct ExHttpError(reqwest::Error);

#[verifier::external_type_specification]
#[verifier::external_body]
pub struct ExJsonError(serde_json::Error);

/// Errors of the servers.
pub enum McpServerError {
    ExternalApi { url: String, reason: String },
    UnexpectedResponse { url: String, reason: String },
    RateLimited { api: String, retry_after_secs: u64 },
    InvalidInput(String),
    Config(String),
    Docker(String),
    XmlParse(String),
    HtmlParse { selector: String, reason: String },
    Io(std::io::Error),
    Http(reqwest::Error),
    Json(serde_json::Error),
    NotConfigured(String),
}

/// The message of an error that carries no outside error.
pub open spec fn message_of(e: McpServerError) -> Option<Seq<char>> {
    match e {
        McpServerError::ExternalApi { url, reason } => Some(
            "external API request failed: "@ + url@ + " — "@ + reason@,
        ),
        McpServerError::UnexpectedResponse { url, reason } => Some(
            "unexpected response from "@ + url@ + ": "@ + reason@,
        ),
        McpServerError::RateLimited { api, retry_after_secs } => Some(
            "rate limit exceeded for "@ + api@ + ", retry after "@ + decimal(retry_after_secs as nat) + "s"@,
        ),
        McpServerError::InvalidInput(s) => Some("invalid tool input: "@ + s@),
        McpServerError::Config(s) => Some("configuration error: "@ + s@),
        McpServerError::Docker(s) => Some("docker API error: "@ + s@),
        McpServerError::XmlParse(s) => Some("XML parse error: "@ + s@),
        McpServerError::HtmlParse { selector, reason } => Some(
            "HTML parse error: selector `"@ + selector@ + "` — "@ + reason@,
        ),
        McpServerError::NotConfigured(s) => Some("resource not configured: "@ + s@),
        _ => None,
    }
}

/// Calls `std::io::Error::to_string`. Nothing is claimed of the text.
#[verifier::external_body]
fn io_error_text(e: &std::io::Error) -> String {
    e.to_string()
}

/// Calls `reqwest::Error::to_string`. Nothing is claimed of the text.
#[verifier::external_body]
fn http_error_text(e: &reqwest::Error) -> String {
    e.to_string()
}

/// Calls `serde_json::Error::to_string`. Nothing is claimed of the text.
#[verifier::external_body]
fn json_error_text(e: &serde_json::Error) -> String {
    e.to_string()
}

impl McpServerError {
    /// The error's message; an error that wraps an outside error shows that
    /// error's own message.
    pub fn message(&self) -> (r: String)
        ensures
            message_of(*self) matches Some(m) ==> r@ == m,
    {
        match self {
            McpServerError::ExternalApi { url, reason } => {
                let mut r = join3("external API request failed: ", url.as_str(), " — ");
                r.append(reason.as_str());
                r
            },
            McpServerError::UnexpectedResponse { url, reason } => {
                let mut r = join3("unexpected response from ", url.as_str(), ": ");
                r.append(reason.as_str());
                r
            },
            McpServerError::RateLimited { api, retry_after_secs } => {
                let mut r = join3("rate limit exceeded for ", api.as_str(), ", retry after ");
                r.append(decimal_string(*retry_after_secs).as_str());
                r.append("s");
                r
            },
            McpServerError::InvalidInput(s) => join2("invalid tool input: ", s.as_str()),
            McpServerError::Config(s) => join2("configuration error: ", s.as_str()),
            McpServerError::Docker(s) => join2("docker API error: ", s.as_str()),
            McpServerError::XmlParse(s) => join2("XML parse error: ", s.as_str()),
            McpServerError::HtmlParse { selector, reason } => {
                let mut r = join3("HTML parse error: selector `", selector.as_str(), "` — ");
                r.append(reason.as_str());
                r
            },
            McpServerError::Io(e) => io_error_text(e),
            McpServerError::Http(e) => http_error_text(e),
            McpServerError::Json(e) => json_error_text(e),
            McpServerError::NotConfigured(s) => join2("resource not configured: ", s.as_str()),
        }
    }
}

impl From<std::io::Error> for McpServerError {
    fn from(e: std::io::Error) -> Self {
        McpServerError::Io(e)
    }
}

impl vstd::std_specs::convert::FromSpecImpl<std::io::Error> for McpServerError {
    open spec fn obeys_from_spec() -> bool {
        true
    }

    open spec fn from_spec(e: std::io::Error) -> McpServerError {
        McpServerError::Io(e)
    }
}

impl From<reqwest::Error> for McpServerError {
    fn from(e: reqwest::Error) -> Self {
        McpServerError::Http(e)
    }
}

impl vstd::std_specs::convert::FromSpecImpl<reqwest::Error> for McpServerError {
    open spec fn obeys_from_spec() -> bool {
        true
    }

    open spec fn from_spec(e: reqwest::Error) -> McpServerError {
        McpServerError::Http(e)
    }
}

impl From<serde_json::Error> for McpServerError {
    fn from(e: serde_json::Error) -> Self {
        McpServerError::Json(e)
    }
}

impl vstd::std_specs::convert::FromSpecImpl<serde_json::Error> for McpServerError {
    open spec fn obeys_from_spec() -> bool {
        true
    }

    open spec fn from_spec(e: serde_json::Error) -> McpServerError {
        McpServerError::Json(e)
    }
}

} // verus!
