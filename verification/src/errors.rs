//! Failure taxonomy shared by the client facades.

use vstd::prelude::*;

verus! {

/// Every failure a client operation can surface.
///
/// `ConfigurationError` is raised at construction time (non-positive quota,
/// an invalid endpoint URL, or zero discovered endpoints) and is never
/// retried. `TransportError` reports a connection failure or timeout,
/// `ProtocolError` a non-success response status (the status is kept so the
/// caller can recover it), and `DecodeError` a malformed or
/// schema-mismatched response body. Errors are propagated unmodified; only
/// the market-price snapshot absorbs them.
#[derive(Debug, Clone, Copy, PartialEq, Eq, Structural)]
pub enum CoreError {
    ConfigurationError,
    TransportError,
    ProtocolError { status: u16 },
    DecodeError,
}

} // verus!
