//! The error taxonomy of the bootstrap protocol.

use vstd::prelude::*;

verus! {

/// Every way the bootstrap or the enqueue gateway can fail.
///
/// Each variant carries enough context (URL, host, HTTP status, body) for an
/// operator to tell a local misconfiguration from a remote outage.
#[derive(Debug, Clone, PartialEq, Eq)]
pub enum Error {
    /// The credential file could not be parsed.
    Netrc { message: String },
    /// The credential file has no entry for the metadata server's host;
    /// carries that server's URL.
    MissingCreds { url: String },
    /// A server URL has no host component; carries the offending URL.
    BadUrl { url: String },
    /// A local configuration problem: a credential entry missing a login or
    /// a password, or an absent project identifier.
    Config { message: String },
    /// The metadata server answered the project lookup with a non-success
    /// status; carries the status and the response body verbatim.
    GetCacheName { status: u16, body: String },
    /// The cache server refused the configuration request with a structured
    /// error payload, preserved as decoded.
    Api { status: u16, error: String, message: String },
    /// A response body that should have carried a known payload could not be
    /// decoded.
    Decode { message: String },
    /// The push session rejected an enqueued batch; the session's own
    /// message, propagated verbatim.
    Session { message: String },
}

} // verus!
