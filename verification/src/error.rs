//! The ways in which fetching one resource can fail.

use vstd::prelude::*;

verus! {

/// A response that is well formed but is not a document: the server asks
/// for something or refuses.
#[derive(Clone, Copy, Debug, PartialEq, Eq, Structural)]
pub enum Refusal {
    /// Status 10 to 19: the server asks for input.
    Input,
    /// Status 40 to 49: a temporary failure.
    TempFail,
    /// Status 50 to 59: a permanent failure.
    PermFail,
    /// Status 60 to 69: a client certificate is asked for.
    Auth,
}

/// Why a fetch did not yield a document.
#[derive(Clone, Copy, Debug, PartialEq, Eq, Structural)]
pub enum FetchError {
    /// The resource names no host to connect to, or the connection failed.
    ConnectFailure,
    /// The secure transport could not be set up.
    HandshakeFailure,
    /// The request could not be sent.
    WriteFailure,
    /// The response could not be read.
    ReadFailure,
    /// A stage of the exchange took longer than the time allowed.
    StageTimeout,
    /// The response has no status line, or the line has no space between
    /// code and meta text.
    MalformedStatusLine,
    /// The status is not two digits, or belongs to none of the six classes.
    UnknownStatusCode,
    /// A success whose media type is malformed or is not native text.
    UnsupportedMediaType,
    /// More redirects in a row than are followed.
    RedirectLimitExceeded,
    /// A redirect whose target is no absolute resource identifier.
    InvalidRedirectTarget,
    /// The server answered, and the answer is a refusal.
    ProtocolLevelFailure(Refusal),
}

} // verus!
