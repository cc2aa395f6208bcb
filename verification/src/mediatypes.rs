//! Media-types for API objects, and their wire strings.

use vstd::prelude::*;

verus! {

/// Media types negotiated with a registry.
///
/// Known wire strings map to the named variants; any other string is
/// carried unchanged in the `Other` bucket, so that conversion from and
/// back to the wire string loses nothing.
#[derive(Debug, Clone)]
pub enum MediaTypes {
    /// Manifest, version 2 schema 1.
    ManifestV2S1,
    /// Signed manifest, version 2 schema 1.
    ManifestV2S1Signed,
    /// Manifest, version 2 schema 2.
    ManifestV2S2,
    /// Manifest list (fat manifest).
    ManifestList,
    /// Image layer, as a gzip-compressed tar.
    ImageLayer,
    /// Configuration object for a container.
    ContainerConfigV1,
    /// Any other media type, kept verbatim.
    Other(String),
}

/// The variant of a [`MediaTypes`] value, without its payload.
#[derive(Debug, Clone, Copy, PartialEq, Eq, Structural)]
pub enum MediaTypeKind {
    ManifestV2S1,
    ManifestV2S1Signed,
    ManifestV2S2,
    ManifestList,
    ImageLayer,
    ContainerConfigV1,
    Other,
}

/// The wire string of a media type.
pub open spec fn spec_wire(m: MediaTypes) -> Seq<char> {
    match m {
        MediaTypes::ManifestV2S1 => "application/vnd.docker.distribution.manifest.v1+json"@,
        MediaTypes::ManifestV2S1Signed
            => "application/vnd.docker.distribution.manifest.v1+prettyjws"@,
        MediaTypes::ManifestV2S2 => "application/vnd.docker.distribution.manifest.v2+json"@,
        MediaTypes::ManifestList
            => "application/vnd.docker.distribution.manifest.list.v2+json"@,
        MediaTypes::ImageLayer => "application/vnd.docker.image.rootfs.diff.tar.gzip"@,
        MediaTypes::ContainerConfigV1 => "application/vnd.docker.container.image.v1+json"@,
        MediaTypes::Other(s) => s@,
    }
}

pub open spec fn spec_kind_of(m: MediaTypes) -> MediaTypeKind {
    match m {
        MediaTypes::ManifestV2S1 => MediaTypeKind::ManifestV2S1,
        MediaTypes::ManifestV2S1Signed => MediaTypeKind::ManifestV2S1Signed,
        MediaTypes::ManifestV2S2 => MediaTypeKind::ManifestV2S2,
        MediaTypes::ManifestList => MediaTypeKind::ManifestList,
        MediaTypes::ImageLayer => MediaTypeKind::ImageLayer,
        MediaTypes::ContainerConfigV1 => MediaTypeKind::ContainerConfigV1,
        MediaTypes::Other(s) => MediaTypeKind::Other,
    }
}

/// The variant a wire string converts to.
pub open spec fn spec_kind_from(s: Seq<char>) -> MediaTypeKind {
    if s == "application/vnd.docker.distribution.manifest.v1+json"@ {
        MediaTypeKind::ManifestV2S1
    } else if s == "application/vnd.docker.distribution.manifest.v1+prettyjws"@ {
        MediaTypeKind::ManifestV2S1Signed
    } else if s == "application/vnd.docker.distribution.manifest.v2+json"@ {
        MediaTypeKind::ManifestV2S2
    } else if s == "application/vnd.docker.distribution.manifest.list.v2+json"@ {
        MediaTypeKind::ManifestList
    } else if s == "application/vnd.docker.image.rootfs.diff.tar.gzip"@ {
        MediaTypeKind::ImageLayer
    } else if s == "application/vnd.docker.container.image.v1+json"@ {
        MediaTypeKind::ContainerConfigV1
    } else {
        MediaTypeKind::Other
    }
}

impl MediaTypes {
    /// Convert a wire string to its media type. Total: unknown strings
    /// land in [`MediaTypes::Other`] with the string kept verbatim, so
    /// `r.to_string()` always returns the input.
    pub fn from_str(s: &str) -> (r: Self)
        ensures
            spec_wire(r) == s@,
            spec_kind_of(r) == spec_kind_from(s@),
    {
        if crate::strutil::str_eq(s, "application/vnd.docker.distribution.manifest.v1+json") {
            MediaTypes::ManifestV2S1
        } else if crate::strutil::str_eq(
            s,
            "application/vnd.docker.distribution.manifest.v1+prettyjws",
        ) {
            MediaTypes::ManifestV2S1Signed
        } else if crate::strutil::str_eq(
            s,
            "application/vnd.docker.distribution.manifest.v2+json",
        ) {
            MediaTypes::ManifestV2S2
        } else if crate::strutil::str_eq(
            s,
            "application/vnd.docker.distribution.manifest.list.v2+json",
        ) {
            MediaTypes::ManifestList
        } else if crate::strutil::str_eq(
            s,
            "application/vnd.docker.image.rootfs.diff.tar.gzip",
        ) {
            MediaTypes::ImageLayer
        } else if crate::strutil::str_eq(s, "application/vnd.docker.container.image.v1+json") {
            MediaTypes::ContainerConfigV1
        } else {
            MediaTypes::Other(String::from_str(s))
        }
    }

    /// The wire string of this media type.
    pub fn to_string(&self) -> (r: String)
        ensures
            r@ == spec_wire(*self),
    {
        match self {
            MediaTypes::ManifestV2S1 => String::from_str(
                "application/vnd.docker.distribution.manifest.v1+json",
            ),
            MediaTypes::ManifestV2S1Signed => String::from_str(
                "application/vnd.docker.distribution.manifest.v1+prettyjws",
            ),
            MediaTypes::ManifestV2S2 => String::from_str(
                "application/vnd.docker.distribution.manifest.v2+json",
            ),
            MediaTypes::ManifestList => String::from_str(
                "application/vnd.docker.distribution.manifest.list.v2+json",
            ),
            MediaTypes::ImageLayer => String::from_str(
                "application/vnd.docker.image.rootfs.diff.tar.gzip",
            ),
            MediaTypes::ContainerConfigV1 => String::from_str(
                "application/vnd.docker.container.image.v1+json",
            ),
            MediaTypes::Other(s) => s.clone(),
        }
    }
}

} // verus!
