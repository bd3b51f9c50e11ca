//! The bookkeeping half of the transport client: the normalized server
//! address, the replaceable request timeout, target-address construction,
//! and the classification of HTTP responses into the typed error domain.
//! The network exchange itself lives outside the library and hands its
//! status and decoded body back in.

use crate::error::{TransportCause, WebDriverError, WebDriverResult};
use crate::value::JsonValue;
use vstd::prelude::*;
use vstd::string::{StrSliceExecFns, StringExecFns};

verus! {

/// The HTTP verb of a protocol command.
#[derive(Debug, Clone, Copy, PartialEq, Eq, Structural)]
pub enum RequestMethod {
    Get,
    Post,
    Delete,
}

/// One protocol command: a verb, a path suffix appended to the server
/// address, and an optional raw body. Constructed per command and consumed
/// by exactly one transport call.
#[derive(Debug)]
pub struct RequestData {
    pub method: RequestMethod,
    pub url: String,
    pub body: Option<JsonValue>,
}

/// The default request timeout, in milliseconds.
pub const DEFAULT_TIMEOUT_MS: u64 = 120000;

/// A server address with every trailing path separator removed.
pub open spec fn spec_trim_trailing_slashes(s: Seq<char>) -> Seq<char>
    decreases s.len(),
{
    if s.len() > 0 && s.last() == '/' {
        spec_trim_trailing_slashes(s.drop_last())
    } else {
        s
    }
}

/// How a response is classified, as a function of its status and decoded
/// body alone. A success- or redirection-class status yields the body, and a
/// body that did not decode is a transport error. An error-class status
/// yields an application-level error carrying the status and the decoded
/// body, null when the body did not decode. Any other status class cannot
/// come from a conformant server.
pub open spec fn spec_classify_response(status: u16, body: Option<JsonValue>) -> WebDriverResult<
    JsonValue,
> {
    if 200 <= status < 400 {
        match body {
            Some(b) => Ok(b),
            None => Err(WebDriverError::TransportError(TransportCause::MalformedSuccessBody)),
        }
    } else if 400 <= status < 600 {
        Err(
            WebDriverError::RemoteProtocolError {
                status,
                body: match body {
                    Some(b) => b,
                    None => JsonValue::Null,
                },
            },
        )
    } else {
        Err(WebDriverError::TransportError(TransportCause::UnexpectedStatusClass))
    }
}

/// Classify one HTTP response: `status` is the numeric status code and
/// `body` the decoded response body, `None` where decoding failed.
pub fn classify_response(status: u16, body: Option<JsonValue>) -> (r: WebDriverResult<JsonValue>)
    ensures
        r == spec_classify_response(status, body),
{
    if 200 <= status && status < 400 {
        match body {
            Some(b) => Ok(b),
            None => Err(WebDriverError::TransportError(TransportCause::MalformedSuccessBody)),
        }
    } else if 400 <= status && status < 600 {
        Err(
            WebDriverError::RemoteProtocolError {
                status,
                body: match body {
                    Some(b) => b,
                    None => JsonValue::Null,
                },
            },
        )
    } else {
        Err(WebDriverError::TransportError(TransportCause::UnexpectedStatusClass))
    }
}

/// The client-side state of the asynchronous transport: the normalized
/// server address and the timeout the next-built HTTP handle will carry.
/// The live handle itself is owned by the surrounding (unverified) layer,
/// which rebuilds it whenever the timeout here changes.
#[derive(Debug)]
pub struct SurfDriverAsync {
    url: String,
    timeout_ms: u64,
}

impl SurfDriverAsync {
    /// The normalized server base address.
    pub closed spec fn base_url(&self) -> Seq<char> {
        self.url@
    }

    /// The configured request timeout, in milliseconds.
    pub closed spec fn timeout_millis(&self) -> u64 {
        self.timeout_ms
    }

    /// The outcome of one dispatched command: the resolved target address,
    /// and the classification of the response that eventually arrives.
    pub open spec fn spec_outcome(
        &self,
        path: Seq<char>,
        status: u16,
        body: Option<JsonValue>,
    ) -> (Seq<char>, WebDriverResult<JsonValue>) {
        (self.base_url() + path, spec_classify_response(status, body))
    }

    /// Build the client state for a server address, trimming any trailing
    /// path separators and starting from the default timeout.
    pub fn create(remote_server_addr: &str) -> (r: WebDriverResult<Self>)
        ensures
            r is Ok,
            r->Ok_0.base_url() == spec_trim_trailing_slashes(remote_server_addr@),
            r->Ok_0.timeout_millis() == DEFAULT_TIMEOUT_MS,
    {
        let mut n = remote_server_addr.unicode_len();
        proof {
            assert(remote_server_addr@.take(n as int) =~= remote_server_addr@);
        }
        while n > 0 && remote_server_addr.get_char(n - 1) == '/'
            invariant
                n <= remote_server_addr@.len(),
                spec_trim_trailing_slashes(remote_server_addr@) == spec_trim_trailing_slashes(
                    remote_server_addr@.take(n as int),
                ),
            decreases n,
        {
            proof {
                assert(remote_server_addr@.take(n as int).drop_last() =~= remote_server_addr@.take(
                    n as int - 1,
                ));
                assert(remote_server_addr@.take(n as int).last() == remote_server_addr@[n as int
                    - 1]);
            }
            n -= 1;
        }
        let base = remote_server_addr.substring_char(0, n).to_owned();
        proof {
            if n > 0 {
                assert(remote_server_addr@.take(n as int).last() != '/');
            }
            assert(spec_trim_trailing_slashes(remote_server_addr@.take(n as int))
                == remote_server_addr@.take(n as int));
        }
        Ok(SurfDriverAsync { url: base, timeout_ms: DEFAULT_TIMEOUT_MS })
    }

    /// Replace the request timeout. Only the timeout changes: the server
    /// address, and the outcome of any request already dispatched, are
    /// unaffected.
    pub fn set_request_timeout(&mut self, timeout_ms: u64)
        ensures
            final(self).base_url() == old(self).base_url(),
            final(self).timeout_millis() == timeout_ms,
    {
        self.timeout_ms = timeout_ms;
    }

    /// The configured request timeout, in milliseconds.
    pub fn request_timeout_ms(&self) -> (r: u64)
        ensures
            r == self.timeout_millis(),
    {
        self.timeout_ms
    }

    /// The full target address of a command: the server address with the
    /// command's path suffix appended.
    pub fn request_url(&self, path: &str) -> (r: String)
        ensures
            r@ == self.base_url() + path@,
    {
        self.url.clone().concat(path)
    }
}

/// Replacing the timeout leaves the outcome of a request untouched: two
/// client states with the same server address resolve every command to the
/// same target address and classify every response alike, so a request
/// dispatched before the change is unaffected by it.
pub proof fn lemma_timeout_rebuild_isolation(
    d1: SurfDriverAsync,
    d2: SurfDriverAsync,
    path: Seq<char>,
    status: u16,
    body: Option<JsonValue>,
)
    requires
        d2.base_url() == d1.base_url(),
    ensures
        d2.spec_outcome(path, status, body) == d1.spec_outcome(path, status, body),
{
}

} // verus!
