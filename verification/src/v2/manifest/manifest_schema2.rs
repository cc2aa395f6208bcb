//! Manifest version 2 schema 2, its config blob, and the manifest
//! list (fat manifest).

use vstd::prelude::*;

use crate::errors::Error;
use crate::strutil::spec_strings_view;

verus! {

/// Reference to the config blob of a schema 2 manifest.
#[derive(Debug, Clone)]
pub struct Config {
    pub media_type: String,
    pub size: u64,
    pub digest: String,
}

/// A layer reference of a schema 2 manifest.
#[derive(Debug, Clone)]
pub struct S2Layer {
    pub media_type: String,
    pub size: u64,
    pub digest: String,
    pub urls: Option<Vec<String>>,
}

/// Manifest version 2 schema 2, as decoded from the wire; the config
/// blob it references is fetched separately.
#[derive(Debug, Clone)]
pub struct ManifestSchema2Spec {
    pub schema_version: u16,
    pub media_type: String,
    pub config: Config,
    pub layers: Vec<S2Layer>,
}

/// A set in the OCI wire encoding (a JSON object with empty values),
/// kept as its list of members.
#[derive(Debug, Clone)]
pub struct OciHashSet<T>(pub Vec<T>);

/// Partial representation of a container image configuration.
#[derive(Debug, Clone)]
pub struct ConfigBlob {
    /// CPU architecture supported by this image. Common values:
    /// `amd64`, `arm`, `386`.
    pub architecture: String,
    /// Operating system, supported as a host. Common values: `linux`,
    /// `freebsd`, `darwin`.
    pub os: String,
    /// Runtime configuration, when present.
    pub runtime_config: Option<RuntimeConfig>,
}

/// Container runtime configuration, as carried in the config blob.
/// Paths are kept as plain strings.
#[derive(Debug, Clone)]
pub struct RuntimeConfig {
    /// User, and optionally group, to run the image as.
    pub user: Option<String>,
    /// Default memory limit in bytes.
    pub memory: Option<u64>,
    /// Default memory+swap limit in bytes; -1 disables swap.
    pub memory_swap: Option<i64>,
    /// Default CPU shares.
    pub cpu_shares: Option<u32>,
    /// Ports that should be exposed.
    pub exposed_ports: Option<OciHashSet<String>>,
    /// Environment variables that should be set.
    pub env: Option<Vec<String>>,
    /// Entrypoint of the image.
    pub entrypoint: Option<Vec<String>>,
    /// Default command.
    pub cmd: Option<Vec<String>>,
    /// Volumes that should be exposed.
    pub volumes: Option<OciHashSet<String>>,
    /// Default working directory.
    pub working_dir: Option<String>,
    /// User-defined metadata, as key-value pairs.
    pub labels: Option<Vec<(String, String)>>,
}

/// A schema 2 manifest combined with its fetched config blob.
#[derive(Debug, Clone)]
pub struct ManifestSchema2 {
    pub manifest_spec: ManifestSchema2Spec,
    pub config_blob: ConfigBlob,
}

/// Manifest list (fat manifest).
#[derive(Debug, Clone)]
pub struct ManifestList {
    pub schema_version: u16,
    pub media_type: String,
    pub manifests: Vec<ManifestObj>,
}

/// A child-manifest descriptor of a manifest list.
#[derive(Debug, Clone)]
pub struct ManifestObj {
    pub media_type: String,
    pub size: u64,
    pub digest: String,
    pub platform: Platform,
}

/// Platform-related manifest entries.
#[derive(Debug, Clone)]
pub struct Platform {
    pub architecture: String,
    pub os: String,
    pub os_version: Option<String>,
    pub os_features: Option<Vec<String>>,
    pub variant: Option<String>,
    pub features: Option<Vec<String>>,
}

impl ManifestSchema2Spec {
    /// Get the `Config` object referenced by this manifest.
    pub fn config(&self) -> (r: &Config)
        ensures
            r == &self.config,
    {
        &self.config
    }

    /// The URL of the config blob this manifest references:
    /// `{base}/v2/{repo}/blobs/{config.digest}`.
    pub fn config_blob_url(&self, base: &str, repo: &str) -> (r: String)
        ensures
            r@ == base@ + "/v2/"@ + repo@ + "/blobs/"@ + self.config.digest@,
    {
        crate::v2::blobs::blob_url(base, repo, self.config.digest.as_str())
    }

    /// Combine this manifest with its fetched config blob.
    pub fn with_config_blob(self, config_blob: ConfigBlob) -> (r: ManifestSchema2)
        ensures
            r.manifest_spec == self,
            r.config_blob == config_blob,
    {
        ManifestSchema2 { manifest_spec: self, config_blob }
    }
}

/// A config blob may only be decoded from a success response; any
/// other status is unexpected here.
pub fn interpret_config_blob_status(status: u16) -> (r: Result<(), Error>)
    ensures
        200 <= status < 300 ==> r is Ok,
        !(200 <= status < 300) ==> r == Err::<(), Error>(Error::UnexpectedHttpStatus(status)),
{
    if 200 <= status && status < 300 {
        Ok(())
    } else {
        Err(Error::UnexpectedHttpStatus(status))
    }
}

/// The layer digests of a schema 2 manifest, base image first — the
/// wire order.
pub open spec fn spec_s2_layers(m: ManifestSchema2) -> Seq<Seq<char>> {
    m.manifest_spec.layers@.map_values(|l: S2Layer| l.digest@)
}

impl ManifestSchema2 {
    /// List digests of all layers referenced by this manifest.
    ///
    /// The returned layers list is ordered starting with the base
    /// image first.
    pub fn get_layers(&self) -> (r: Vec<String>)
        ensures
            spec_strings_view(r@) == spec_s2_layers(*self),
    {
        let ghost target = spec_s2_layers(*self);
        let mut r: Vec<String> = Vec::new();
        let n = self.manifest_spec.layers.len();
        let mut i: usize = 0;
        proof {
            assert(spec_strings_view(r@) =~= target.take(0));
        }
        while i < n
            invariant
                n == self.manifest_spec.layers@.len(),
                0 <= i <= n,
                target == spec_s2_layers(*self),
                spec_strings_view(r@) == target.take(i as int),
            decreases n - i,
        {
            let ghost prev = r@;
            r.push(self.manifest_spec.layers[i].digest.clone());
            proof {
                crate::strutil::lemma_strings_view_push(
                    prev,
                    self.manifest_spec.layers@[i as int].digest,
                );
                assert(target[i as int] == self.manifest_spec.layers@[i as int].digest@);
                assert(target.take(i + 1) =~= target.take(i as int).push(target[i as int]));
            }
            i += 1;
        }
        proof {
            assert(target.take(n as int) =~= target);
        }
        r
    }

    /// Get the architecture from the config.
    pub fn architecture(&self) -> (r: String)
        ensures
            r@ == self.config_blob.architecture@,
    {
        self.config_blob.architecture.clone()
    }
}

} // verus!
