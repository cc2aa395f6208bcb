//! Error type shared by all registry operations.

use vstd::prelude::*;

verus! {

/// Failure cases surfaced by the client.
///
/// The variants follow the protocol's failure taxonomy: configuration
/// problems, transport faults, protocol violations (unexpected status,
/// missing or malformed headers), authentication failures, content
/// integrity failures, and recognized-but-unsupported inputs.
#[derive(Debug, Clone)]
pub enum Error {
    /// Malformed configuration input, such as a bad image reference.
    Configuration(String),
    /// An image reference string that does not parse.
    InvalidReference(String),
    /// DNS, connect, TLS or timeout failure reported by the transport.
    Transport(String),
    /// A response status the protocol does not allow at this point.
    UnexpectedHttpStatus(u16),
    /// A 4xx response carrying its status.
    Client(u16),
    /// A response header the protocol requires was absent.
    MissingHeader(String),
    /// A malformed header value or response body.
    Protocol(String),
    /// Token acquisition failed.
    Authentication(String),
    /// A media type the client recognizes but cannot handle.
    UnsupportedMediaType(String),
    /// An authentication challenge of a scheme other than `Bearer`,
    /// carried verbatim.
    UnsupportedChallengeScheme(String),
    /// A digest algorithm other than the supported ones.
    UnsupportedDigestAlgorithm(String),
    /// A digest string that is not of the form `algorithm:hex`.
    BadDigestFormat,
    /// Fetched content did not hash to the declared digest.
    DigestMismatch { expected: String, computed: String },
    /// The remote registry does not speak the v2 API.
    V2NotSupported,
    /// A structured error document returned by the registry.
    Api(crate::v2::ApiErrors),
}

} // verus!
