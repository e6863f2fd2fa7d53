//! The error taxonomy of the sweeper, and the construction of the terminal
//! error for a failed API response.

use vstd::prelude::*;
use vstd::string::StringExecFns;

verus! {

/// Everything that can terminally end one API call.
#[derive(Debug)]
pub enum Error {
    /// Non-success, non-rate-limit HTTP response: the status code and a
    /// human-readable message built from the caller's context and the
    /// response body's parsed error detail.
    ApiError(u16, String),
    /// Connection-level failure (the request never produced a usable
    /// response, or its body could not be read).
    TransportError,
    /// A success response whose body could not be deserialized.
    DeserializationError,
    /// Rate limiting persisted past the attempt cap.
    MaxRetriesExceeded,
}

/// What the lenient parse of an error response body renders for its
/// "errors" field. A pure function of the body text, named here and pinned
/// down only by the trusted wrapper below.
pub uninterp spec fn error_detail_of(body: Seq<char>) -> Seq<char>;

/// Relies on serde_json::from_str and serde_json::Value's Debug rendering:
/// the body is parsed leniently (an unparsable body counts as JSON null,
/// whose "errors" member is again null), and the "errors" member of the
/// parsed value is rendered as text. The result depends on the body alone.
#[verifier::external_body]
fn api_error_detail(body: &str) -> (r: String)
    ensures
        r@ == error_detail_of(body@),
{
    let parsed: serde_json::Value =
        serde_json::from_str(body).unwrap_or(serde_json::Value::Null);
    format!("{:?}", parsed["errors"])
}

/// Builds the terminal error for a response with an unexpected status: the
/// status code together with the caller's context string and the parsed
/// error detail of the body.
pub fn api_failure(status: u16, context: &str, body: &str) -> (e: Error)
    ensures
        (e matches Error::ApiError(s, m) && s == status && m@ == context@ + ": "@
            + error_detail_of(body@)),
{
    let detail = api_error_detail(body);
    let mut message = context.to_owned();
    message.append(": ");
    message.append(detail.as_str());
    Error::ApiError(status, message)
}

} // verus!
