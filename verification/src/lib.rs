//! Client library for the Docker Registry HTTP API v2.
//!
//! The crate models the protocol engine of a registry client: the v2
//! API-version probe, bearer-token acquisition from `WWW-Authenticate`
//! challenges, digest-verified blob retrieval, manifest content
//! negotiation, and `Link`-header pagination for catalog and tag
//! listings. Image coordinates are handled by the `docker://` reference
//! parser in [`reference`].

use vstd::prelude::*;

pub mod errors;
pub mod mediatypes;
pub mod reference;
pub mod strutil;
pub mod v2;

verus! {

/// Default User-Agent identity presented by this library.
pub fn default_user_agent() -> (r: String)
    ensures
        r@ == "camallo-dkregistry/0.0"@,
{
    String::from_str("camallo-dkregistry/0.0")
}

/// The base64 decoding of a character sequence under the standard
/// alphabet with padding, when it decodes at all.
pub uninterp spec fn base64_decoded(s: Seq<char>) -> Option<Seq<u8>>;

/// Relies on `base64::decode`: decoding under the standard alphabet
/// succeeds or fails as a function of the input characters alone.
#[verifier::external_body]
fn base64_decode(s: &str) -> (r: Option<Vec<u8>>)
    ensures
        match base64_decoded(s@) {
            Some(b) => r matches Some(v) && v@ == b,
            None => r is None,
        },
{
    base64::decode(s).ok()
}

/// Relies on `String::from_utf8`: succeeds exactly on valid UTF-8,
/// and then decodes it.
#[verifier::external_body]
fn string_from_utf8(v: Vec<u8>) -> (r: Option<String>)
    ensures
        r is Some <==> vstd::utf8::valid_utf8(v@),
        r matches Some(s) ==> s@ == vstd::utf8::decode_utf8(v@),
{
    String::from_utf8(v).ok()
}

/// The index key under which docker-client configuration stores
/// credentials: Docker Hub hosts are special-cased to the historical
/// index URL.
pub fn resolve_index(index: &str) -> (r: String)
    ensures
        r@ == (if index@ == "docker.io"@ || index@ == "registry-1.docker.io"@ {
            "https://index.docker.io/v1/"@
        } else {
            index@
        }),
{
    if strutil::str_eq(index, "docker.io") || strutil::str_eq(index, "registry-1.docker.io") {
        String::from_str("https://index.docker.io/v1/")
    } else {
        String::from_str(index)
    }
}

/// The `(user, password)` pair held in a decoded `user:password`
/// credential string: an empty side is reported as absent, and a
/// string without a colon carries no credentials at all.
pub open spec fn spec_split_credentials(s: Seq<char>) -> (Option<Seq<char>>, Option<Seq<char>>) {
    match strutil::spec_find(s, ':') {
        None => (None, None),
        Some(i) => {
            let u = s.take(i);
            let p = s.skip(i + 1);
            if u.len() == 0 {
                (None, Some(p))
            } else if p.len() == 0 {
                (Some(u), None)
            } else {
                (Some(u), Some(p))
            }
        },
    }
}

/// Decode a base64 `user:password` entry of a docker-client
/// configuration into its credentials pair.
pub fn credentials_from_auth(auth: &str) -> (r: Result<
    (Option<String>, Option<String>),
    errors::Error,
>)
    ensures
        match base64_decoded(auth@) {
            None => r matches Err(e) && e matches errors::Error::Configuration(_),
            Some(b) => {
                if !vstd::utf8::valid_utf8(b) {
                    r matches Err(e) && e matches errors::Error::Configuration(_)
                } else {
                    r matches Ok(up) && {
                        let sp = spec_split_credentials(vstd::utf8::decode_utf8(b));
                        &&& match up.0 {
                            Some(u) => sp.0 == Some(u@),
                            None => sp.0 is None,
                        }
                        &&& match up.1 {
                            Some(p) => sp.1 == Some(p@),
                            None => sp.1 is None,
                        }
                    }
                }
            },
        },
{
    let decoded = match base64_decode(auth) {
        Some(v) => v,
        None => {
            return Err(errors::Error::Configuration(String::from_str("invalid base64 auth")));
        },
    };
    let s = match string_from_utf8(decoded) {
        Some(s) => s,
        None => {
            return Err(errors::Error::Configuration(String::from_str("auth is not UTF-8")));
        },
    };
    let st = s.as_str();
    let n = st.unicode_len();
    match strutil::find_char(st, ':') {
        None => Ok((None, None)),
        Some(i) => {
            let u = strutil::substr_to_string(st, 0, i);
            let p = strutil::substr_to_string(st, i + 1, n);
            proof {
                assert(u@ =~= s@.take(i as int));
                assert(p@ =~= s@.skip(i + 1));
            }
            if u.as_str().unicode_len() == 0 {
                Ok((None, Some(p)))
            } else if p.as_str().unicode_len() == 0 {
                Ok((Some(u), None))
            } else {
                Ok((Some(u), Some(p)))
            }
        },
    }
}

} // verus!
