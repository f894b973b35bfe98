//! The relay's error taxonomy. Every failure is surfaced to the caller as
//! text on a 500 response; none may abort the service.

use vstd::prelude::*;
use vstd::string::StringExecFns;

verus! {

/// One failure class per stage of the pipeline.
pub enum RelayError {
    /// The `headers` field is not parseable JSON or has the wrong shape.
    MalformedHeaders,
    /// The body cannot be encoded per its declared content type.
    EncodingError,
    /// DNS, connect, TLS or timeout failure from the transport, with the
    /// transport's own message.
    NetworkError(String),
    /// The response could not be converted to text at all.
    ResponseDecodeError,
    /// The final envelope could not be serialized.
    SerializationError,
}

impl RelayError {
    /// The text that a 500 response carries for this error.
    pub open spec fn spec_message(self) -> Seq<char> {
        match self {
            RelayError::MalformedHeaders => "malformed headers: not a JSON list of header entries"@,
            RelayError::EncodingError => "encoding error: body does not match its declared content type"@,
            RelayError::NetworkError(m) => "network error: "@ + m@,
            RelayError::ResponseDecodeError => "response decode error: response could not be converted to text"@,
            RelayError::SerializationError => "serialization error: envelope could not be serialized"@,
        }
    }

    /// Render this error as the plain text of a 500 response.
    pub fn message(&self) -> (r: String)
        ensures
            r@ == self.spec_message(),
    {
        match self {
            RelayError::MalformedHeaders => String::from_str(
                "malformed headers: not a JSON list of header entries",
            ),
            RelayError::EncodingError => String::from_str(
                "encoding error: body does not match its declared content type",
            ),
            RelayError::NetworkError(m) => {
                let mut r = String::from_str("network error: ");
                r.append(m.as_str());
                r
            },
            RelayError::ResponseDecodeError => String::from_str(
                "response decode error: response could not be converted to text",
            ),
            RelayError::SerializationError => String::from_str(
                "serialization error: envelope could not be serialized",
            ),
        }
    }
}

} // verus!
