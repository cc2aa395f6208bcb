//! Client for the Docker Registry API v2 protocol.
//!
//! The [`Client`] value holds the configured state of a registry
//! session: base URL, optional credentials, optional bearer token,
//! user-agent and the accepted media types. Everything the protocol
//! decides — which URL to request, how to read a response status and
//! its headers — is computed here; performing the HTTP exchange is left
//! to the caller, who feeds the plain status and header values back in.

use vstd::prelude::*;

use crate::errors::Error;
use crate::mediatypes::MediaTypes;

pub mod auth;
pub mod blobs;
pub mod catalog;
pub mod config;
pub mod content_digest;
pub mod manifest;
pub mod pagination;
pub mod tags;

pub use config::Config;

verus! {

/// A Client holding the configured state of a registry session.
///
/// The caller performs HTTP exchanges and feeds plain status and
/// header values to the interpretation functions of this module and
/// its submodules; the Client itself decides URLs and headers.
#[derive(Debug, Clone)]
pub struct Client {
    /// Scheme and host, e.g. `https://registry-1.docker.io`.
    pub base_url: String,
    /// Optional `(user, password)` pair for the token exchange.
    pub credentials: Option<(String, String)>,
    /// Optional `User-Agent` value sent with every request.
    pub user_agent: Option<String>,
    /// The bearer token installed by a successful login, if any.
    pub token: Option<String>,
    /// Media types requested for manifests, with optional quality
    /// values in tenths (`Some(5)` renders as `q=0.5`).
    pub accepted_types: Vec<(MediaTypes, Option<u8>)>,
}

impl Client {
    /// Obtain a fresh configuration builder.
    pub fn configure() -> (r: config::Config)
        ensures
            r.index@ == "registry-1.docker.io"@,
            !r.insecure_registry,
            r.user_agent matches Some(ua) && ua@ == "camallo-dkregistry/0.0"@,
            r.username is None,
            r.password is None,
            r.accepted_types is None,
    {
        config::Config::default()
    }

    /// The `Authorization` header value attached to registry requests:
    /// the bearer token when one is installed, nothing otherwise.
    /// (Basic credentials are attached only to the token exchange.)
    pub fn authorization_header(&self) -> (r: Option<String>)
        ensures
            match self.token {
                Some(t) => r matches Some(h) && h@ == "Bearer "@ + t@,
                None => r is None,
            },
    {
        match &self.token {
            Some(t) => {
                let mut h = String::from_str("Bearer ");
                h.append(t.as_str());
                Some(h)
            },
            None => None,
        }
    }
}

/// A structured error entry of a registry error document.
#[derive(Debug, Clone)]
pub struct ApiError {
    /// Machine-readable error code.
    pub code: String,
    /// Human-readable message, when the registry sent one.
    pub message: Option<String>,
    /// Raw JSON text of the optional detail field.
    pub detail: Option<String>,
}

impl ApiError {
    /// Return the API error code.
    pub fn code(&self) -> (r: &str)
        ensures
            r@ == self.code@,
    {
        self.code.as_str()
    }

    /// Return the API error message, if any.
    pub fn message(&self) -> (r: Option<&String>)
        ensures
            match r {
                Some(m) => self.message == Some(*m),
                None => self.message is None,
            },
    {
        self.message.as_ref()
    }
}

/// The error document an OCI registry may return with a failure.
#[derive(Debug, Clone)]
pub struct ApiErrors {
    /// The entries of the document, if any were decoded.
    pub errors: Option<Vec<ApiError>>,
}

impl ApiErrors {
    /// Returns the errors returned by the API.
    pub fn errors(&self) -> (r: &Option<Vec<ApiError>>)
        ensures
            r == &self.errors,
    {
        &self.errors
    }
}

/// Outcome of `GET /v2/`: `Ok((supported, authorized))` per the table
/// in the distribution spec, an error on any other status.
///
/// `supported` is whether the `Docker-Distribution-API-Version` header
/// equals `registry/2.0`; `authorized` is whether the status was 200
/// rather than 401.
pub fn interpret_v2_probe(status: u16, api_version_header: Option<&str>) -> (r: Result<
    (bool, bool),
    Error,
>)
    ensures
        match r {
            Ok((supported, authorized)) => {
                &&& api_version_header is Some
                &&& (status == 200 || status == 401)
                &&& supported == (api_version_header.unwrap()@ == "registry/2.0"@)
                &&& authorized == (status == 200)
            },
            Err(e) => (status != 200 && status != 401 || api_version_header is None) && e
                == Error::UnexpectedHttpStatus(status),
        },
{
    match api_version_header {
        Some(h) if status == 200 => Ok((crate::strutil::str_eq(h, "registry/2.0"), true)),
        Some(h) if status == 401 => Ok((crate::strutil::str_eq(h, "registry/2.0"), false)),
        _ => Err(Error::UnexpectedHttpStatus(status)),
    }
}

/// Reduce a probe outcome to plain v2 support: an unexpected status
/// means "not supported", any other error is passed through.
pub fn is_v2_supported_outcome(probe: Result<(bool, bool), Error>) -> (r: Result<bool, Error>)
    ensures
        match probe {
            Ok((supported, authorized)) => r == Ok::<bool, Error>(supported),
            Err(Error::UnexpectedHttpStatus(s)) => r == Ok::<bool, Error>(false),
            Err(e) => r == Err::<bool, Error>(e),
        },
{
    match probe {
        Ok((supported, _)) => Ok(supported),
        Err(Error::UnexpectedHttpStatus(_)) => Ok(false),
        Err(e) => Err(e),
    }
}

/// Two to the power `n`.
pub open spec fn spec_pow2(n: nat) -> nat
    decreases n,
{
    if n == 0 {
        1
    } else {
        2 * spec_pow2((n - 1) as nat)
    }
}

/// The backoff before retry number `attempt`: 100ms doubled each
/// time, the exponent capped so the delay stays bounded.
pub open spec fn spec_backoff_ms(attempt: nat) -> nat {
    100 * spec_pow2(if attempt > 12 {
        12
    } else {
        attempt
    })
}

/// Retry schedule for rate-limited requests: only HTTP 429 is
/// retried, with exponentially growing delays, and only while the
/// elapsed retry time stays under the caller's bound. Every other
/// status — and any transport failure, which has no status to pass
/// here — is not retriable.
pub fn retry_delay_ms(status: u16, attempt: u32, elapsed_ms: u64, max_elapsed_ms: u64) -> (r:
    Option<u64>)
    ensures
        status != 429 ==> r is None,
        status == 429 && elapsed_ms >= max_elapsed_ms ==> r is None,
        status == 429 && elapsed_ms < max_elapsed_ms ==> r == Some(
            spec_backoff_ms(attempt as nat) as u64,
        ),
{
    if status != 429 || elapsed_ms >= max_elapsed_ms {
        return None;
    }
    let capped: u32 = if attempt > 12 {
        12
    } else {
        attempt
    };
    let mut delay: u64 = 100;
    let mut i: u32 = 0;
    while i < capped
        invariant
            0 <= i <= capped <= 12,
            delay == 100 * spec_pow2(i as nat),
            delay <= 409600,
        decreases capped - i,
    {
        proof {
            lemma_pow2_monotone(i as nat + 1, 12);
            assert(spec_pow2(i as nat + 1) == 2 * spec_pow2(i as nat));
            reveal_with_fuel(spec_pow2, 13);
            assert(spec_pow2(12) == 4096);
        }
        delay = delay * 2;
        i += 1;
    }
    Some(delay)
}

proof fn lemma_pow2_monotone(a: nat, b: nat)
    requires
        a <= b,
    ensures
        spec_pow2(a) <= spec_pow2(b),
    decreases b,
{
    if a < b {
        lemma_pow2_monotone(a, (b - 1) as nat);
    }
}

/// A registry that does not support v2 is an error for clients that
/// require it.
pub fn ensure_v2_outcome(supported: bool) -> (r: Result<(), Error>)
    ensures
        supported ==> r is Ok,
        !supported ==> r == Err::<(), Error>(Error::V2NotSupported),
{
    if supported {
        Ok(())
    } else {
        Err(Error::V2NotSupported)
    }
}

} // verus!
