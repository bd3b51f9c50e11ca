//! The typed error domain: serialization failures, transport-level failures,
//! and application-level errors reported by the remote server.

use crate::value::JsonValue;
use vstd::prelude::*;

verus! {

/// Why a transport-level failure occurred.
#[derive(Debug, PartialEq)]
pub enum TransportCause {
    /// The network exchange itself failed (connection refused, timeout, ...).
    Network,
    /// A success response carried a body that did not decode.
    MalformedSuccessBody,
    /// A response status outside every class a conformant server may send.
    UnexpectedStatusClass,
}

/// An error surfaced to the caller of a capability or transport operation.
#[derive(Debug, PartialEq)]
pub enum WebDriverError {
    /// A value could not be encoded into the capability document model.
    SerializationError,
    /// The exchange failed below the protocol: network trouble, a malformed
    /// success body, or an impossible status class. Never retried.
    TransportError(TransportCause),
    /// The remote server rejected or failed the command: carries the HTTP
    /// status and the decoded (possibly null) error body.
    RemoteProtocolError { status: u16, body: JsonValue },
}

pub type WebDriverResult<T> = Result<T, WebDriverError>;

} // verus!
