//! Manifest retrieval: URL building, content negotiation, the
//! content-type evaluation with its registry quirk, and the umbrella
//! [`Manifest`] type over the schema variants.

use vstd::prelude::*;

use crate::errors::Error;
use crate::mediatypes::spec_kind_from;
use crate::mediatypes::spec_kind_of;
use crate::mediatypes::spec_wire;
use crate::mediatypes::MediaTypeKind;
use crate::mediatypes::MediaTypes;
use crate::strutil::spec_starts_with;
use crate::strutil::spec_strings_view;
use crate::strutil::starts_with_str;
use crate::strutil::str_eq;

pub mod manifest_schema1;
pub mod manifest_schema2;

pub use self::manifest_schema1::Layer;
pub use self::manifest_schema1::ManifestSchema1Signed;
pub use self::manifest_schema1::Signature;
pub use self::manifest_schema1::V1Compat;
pub use self::manifest_schema2::Config;
pub use self::manifest_schema2::ConfigBlob;
pub use self::manifest_schema2::ManifestList;
pub use self::manifest_schema2::ManifestObj;
pub use self::manifest_schema2::ManifestSchema2;
pub use self::manifest_schema2::ManifestSchema2Spec;
pub use self::manifest_schema2::OciHashSet;
pub use self::manifest_schema2::Platform;
pub use self::manifest_schema2::RuntimeConfig;
pub use self::manifest_schema2::S2Layer;

verus! {

/// The manifest endpoint for a repository and reference (tag or
/// digest): `{base}/v2/{name}/manifests/{reference}`.
pub fn manifest_url(base: &str, name: &str, reference: &str) -> (r: String)
    ensures
        r@ == base@ + "/v2/"@ + name@ + "/manifests/"@ + reference@,
{
    let mut r = String::from_str(base);
    r.append("/v2/");
    r.append(name);
    r.append("/manifests/");
    r.append(reference);
    r
}

/// The quality suffix of an `Accept` value: nothing, or `; q=0.x`
/// with the quality in tenths (`10` rendering as `1.0`).
pub open spec fn spec_q_suffix(q: Option<u8>) -> Seq<char> {
    match q {
        None => Seq::empty(),
        Some(v) => if v == 10 {
            "; q=1.0"@
        } else {
            "; q=0."@ + seq![((v + 48) as u8) as char]
        },
    }
}

/// One `Accept` header value: the wire string of the media type with
/// its quality suffix.
pub open spec fn spec_accept_value(mt: MediaTypes, q: Option<u8>) -> Seq<char> {
    spec_wire(mt) + spec_q_suffix(q)
}

pub open spec fn spec_accept_values(types: Seq<(MediaTypes, Option<u8>)>) -> Seq<Seq<char>> {
    types.map_values(|t: (MediaTypes, Option<u8>)| spec_accept_value(t.0, t.1))
}

/// Render the `Accept` header values for a manifest request, one per
/// accepted media type, each with its quality factor.
pub fn accept_header_values(types: &Vec<(MediaTypes, Option<u8>)>) -> (r: Vec<String>)
    requires
        crate::v2::config::spec_accepted_wf(types@),
    ensures
        spec_strings_view(r@) == spec_accept_values(types@),
{
    let mut r: Vec<String> = Vec::new();
    let n = types.len();
    let mut i: usize = 0;
    proof {
        assert(spec_strings_view(r@) =~= spec_accept_values(types@).take(0));
    }
    while i < n
        invariant
            n == types@.len(),
            0 <= i <= n,
            crate::v2::config::spec_accepted_wf(types@),
            spec_strings_view(r@) == spec_accept_values(types@).take(i as int),
        decreases n - i,
    {
        let mut v = types[i].0.to_string();
        match types[i].1 {
            None => {
                proof {
                    assert(v@ + Seq::<char>::empty() =~= v@);
                }
            },
            Some(q) => {
                if q == 10 {
                    v.append("; q=1.0");
                } else {
                    v.append("; q=0.");
                    proof {
                        assert(types@[i as int].1 == Some(q));
                    }
                    v.push((q + 48) as char);
                    proof {
                        reveal_strlit("; q=0.");
                        assert(v@ =~= spec_wire(types@[i as int].0) + ("; q=0."@ + seq![
                            ((q + 48) as u8) as char,
                        ]));
                    }
                }
            },
        }
        let ghost prev = r@;
        r.push(v);
        proof {
            let ghost target = spec_accept_values(types@);
            crate::strutil::lemma_strings_view_push(prev, v);
            assert(target[i as int] == spec_accept_value(
                types@[i as int].0,
                types@[i as int].1,
            ));
            assert(target.take(i + 1) =~= target.take(i as int).push(target[i as int]));
        }
        i += 1;
    }
    proof {
        assert(spec_accept_values(types@).take(n as int) =~= spec_accept_values(types@));
    }
    r
}

/// Evaluate the effective media type of a manifest response from its
/// `Content-Type` header and the request path.
///
/// Pulp-based registries (Satellite) serve signed schema 1 manifests
/// under `/pulp/docker/v2` paths with a missing or bogus
/// `application/x-troff-man` content type; both read as the signed
/// schema 1 type. Elsewhere a missing header is an error, and the
/// header value is taken at its word.
pub fn evaluate_media_type(content_type: Option<&str>, path: &str) -> (r: Result<
    MediaTypes,
    Error,
>)
    ensures
        match (content_type, spec_starts_with(path@, "/pulp/docker/v2"@)) {
            (Some(h), false) => r matches Ok(mt) && spec_wire(mt) == h@ && spec_kind_of(mt)
                == spec_kind_from(h@),
            (None, false) => r matches Err(e) && e matches Error::MissingHeader(_),
            (Some(h), true) => {
                if h@ == "application/x-troff-man"@ {
                    r == Ok::<MediaTypes, Error>(MediaTypes::ManifestV2S1Signed)
                } else {
                    r matches Ok(mt) && spec_wire(mt) == h@ && spec_kind_of(mt)
                        == spec_kind_from(h@)
                }
            },
            (None, true) => r == Ok::<MediaTypes, Error>(MediaTypes::ManifestV2S1Signed),
        },
{
    let is_pulp_based = starts_with_str(path, "/pulp/docker/v2");
    match (content_type, is_pulp_based) {
        (Some(h), false) => Ok(MediaTypes::from_str(h)),
        (None, false) => Err(Error::MissingHeader(String::from_str("Content-Type"))),
        (Some(h), true) => {
            if str_eq(h, "application/x-troff-man") {
                Ok(MediaTypes::ManifestV2S1Signed)
            } else {
                Ok(MediaTypes::from_str(h))
            }
        },
        (None, true) => Ok(MediaTypes::ManifestV2S1Signed),
    }
}

/// The manifest schema a fetched document is decoded as.
#[derive(Debug, Clone, Copy, PartialEq, Eq, Structural)]
pub enum ManifestKind {
    /// Signed schema 1.
    S1Signed,
    /// Schema 2, followed by its config blob fetch.
    S2,
    /// Manifest list.
    List,
}

/// Which schema to decode a manifest response as, given its effective
/// media type; every other recognized type is unsupported here and
/// reported with the received type.
pub fn manifest_fetch_plan(media_type: &MediaTypes) -> (r: Result<ManifestKind, Error>)
    ensures
        spec_kind_of(*media_type) == MediaTypeKind::ManifestV2S1Signed ==> r == Ok::<
            ManifestKind,
            Error,
        >(ManifestKind::S1Signed),
        spec_kind_of(*media_type) == MediaTypeKind::ManifestV2S2 ==> r == Ok::<
            ManifestKind,
            Error,
        >(ManifestKind::S2),
        spec_kind_of(*media_type) == MediaTypeKind::ManifestList ==> r == Ok::<
            ManifestKind,
            Error,
        >(ManifestKind::List),
        spec_kind_of(*media_type) != MediaTypeKind::ManifestV2S1Signed && spec_kind_of(
            *media_type,
        ) != MediaTypeKind::ManifestV2S2 && spec_kind_of(*media_type)
            != MediaTypeKind::ManifestList ==> (r matches Err(e) && e
            matches Error::UnsupportedMediaType(s) && s@ == spec_wire(*media_type)),
{
    match media_type {
        MediaTypes::ManifestV2S1Signed => Ok(ManifestKind::S1Signed),
        MediaTypes::ManifestV2S2 => Ok(ManifestKind::S2),
        MediaTypes::ManifestList => Ok(ManifestKind::List),
        other => Err(Error::UnsupportedMediaType(other.to_string())),
    }
}

/// A manifest body may only be decoded from a 200 response.
pub fn manifest_get_status(status: u16) -> (r: Result<(), Error>)
    ensures
        status == 200 ==> r is Ok,
        status != 200 ==> r == Err::<(), Error>(Error::UnexpectedHttpStatus(status)),
{
    if status == 200 {
        Ok(())
    } else {
        Err(Error::UnexpectedHttpStatus(status))
    }
}

/// Outcome of a manifest existence probe: the effective media type on
/// 200 or a redirect, nothing on 404, an error on any other status.
pub fn interpret_manifest_head(status: u16, media_type: MediaTypes) -> (r: Result<
    Option<MediaTypes>,
    Error,
>)
    ensures
        (status == 200 || status == 301 || status == 302 || status == 307) ==> (r matches Ok(o)
            && o matches Some(mt) && mt == media_type),
        status == 404 ==> (r matches Ok(o) && o is None),
        !(status == 200 || status == 301 || status == 302 || status == 307 || status == 404)
            ==> r == Err::<Option<MediaTypes>, Error>(Error::UnexpectedHttpStatus(status)),
{
    if status == 200 || status == 301 || status == 302 || status == 307 {
        Ok(Some(media_type))
    } else if status == 404 {
        Ok(None)
    } else {
        Err(Error::UnexpectedHttpStatus(status))
    }
}

/// Umbrella type for common actions on the different manifest schema
/// types.
#[derive(Debug, Clone)]
pub enum Manifest {
    S1Signed(ManifestSchema1Signed),
    S2(ManifestSchema2),
    ML(ManifestList),
}

impl Manifest {
    /// The architectures of the image the manifest points to, if
    /// available. Manifest lists are not supported here.
    pub fn architectures(&self) -> (r: Result<Vec<String>, Error>)
        ensures
            match *self {
                Manifest::S1Signed(m) => r matches Ok(v) && spec_strings_view(v@) == seq![
                    m.architecture@,
                ],
                Manifest::S2(m) => r matches Ok(v) && spec_strings_view(v@) == seq![
                    m.config_blob.architecture@,
                ],
                Manifest::ML(l) => r matches Err(e) && e
                    matches Error::UnsupportedMediaType(_),
            },
    {
        match self {
            Manifest::S1Signed(m) => {
                let mut v: Vec<String> = Vec::new();
                v.push(m.architecture.clone());
                proof {
                    assert(spec_strings_view(v@) =~= seq![m.architecture@]);
                }
                Ok(v)
            },
            Manifest::S2(m) => {
                let mut v: Vec<String> = Vec::new();
                v.push(m.architecture());
                proof {
                    assert(spec_strings_view(v@) =~= seq![m.config_blob.architecture@]);
                }
                Ok(v)
            },
            Manifest::ML(_) => Err(
                Error::UnsupportedMediaType(MediaTypes::ManifestList.to_string()),
            ),
        }
    }

    /// List digests of all layers referenced by this manifest, if
    /// available, base image first.
    ///
    /// With an architecture given, the manifest must be for exactly
    /// that architecture. Manifest lists are not supported here.
    pub fn layers_digests(&self, architecture: Option<&str>) -> (r: Result<Vec<String>, Error>)
        ensures
            match (self, architecture) {
                (Manifest::S1Signed(m), None) => r matches Ok(v) && spec_strings_view(v@)
                    == manifest_schema1::spec_s1_layers(*m),
                (Manifest::S2(m), None) => r matches Ok(v) && spec_strings_view(v@)
                    == manifest_schema2::spec_s2_layers(*m),
                (Manifest::S1Signed(m), Some(a)) => {
                    if m.architecture@ == a@ {
                        r matches Ok(v) && spec_strings_view(v@)
                            == manifest_schema1::spec_s1_layers(*m)
                    } else {
                        r matches Err(e) && e matches Error::Configuration(_)
                    }
                },
                (Manifest::S2(m), Some(a)) => {
                    if m.config_blob.architecture@ == a@ {
                        r matches Ok(v) && spec_strings_view(v@)
                            == manifest_schema2::spec_s2_layers(*m)
                    } else {
                        r matches Err(e) && e matches Error::Configuration(_)
                    }
                },
                (Manifest::ML(l), _) => r matches Err(e) && e
                    matches Error::UnsupportedMediaType(_),
            },
    {
        match (self, architecture) {
            (Manifest::S1Signed(m), None) => Ok(m.get_layers()),
            (Manifest::S2(m), None) => Ok(m.get_layers()),
            (Manifest::S1Signed(m), Some(a)) => {
                if str_eq(m.architecture.as_str(), a) {
                    Ok(m.get_layers())
                } else {
                    Err(Error::Configuration(String::from_str("architecture mismatch")))
                }
            },
            (Manifest::S2(m), Some(a)) => {
                if str_eq(m.config_blob.architecture.as_str(), a) {
                    Ok(m.get_layers())
                } else {
                    Err(Error::Configuration(String::from_str("architecture mismatch")))
                }
            },
            (Manifest::ML(_), _) => Err(
                Error::UnsupportedMediaType(MediaTypes::ManifestList.to_string()),
            ),
        }
    }
}

} // verus!
