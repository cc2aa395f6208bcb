//! Manifest version 2 schema 1, signed (the legacy format).

use vstd::prelude::*;

use crate::strutil::spec_strings_view;

verus! {

/// A layer reference of a schema 1 manifest.
#[derive(Debug, Clone)]
pub struct Layer {
    /// Content-addressed digest of the layer blob.
    pub blob_sum: String,
}

/// Compatibility entry for version 1 manifest interoperability,
/// carried as raw JSON text.
#[derive(Debug, Clone)]
pub struct V1Compat {
    pub v1_compat: String,
}

/// A JSON Web Signature over the manifest. The header is kept as raw
/// JSON text.
#[derive(Debug, Clone)]
pub struct Signature {
    pub header: String,
    pub signature: String,
    pub protected: String,
}

/// Manifest version 2 schema 1, signed.
#[derive(Debug, Clone)]
pub struct ManifestSchema1Signed {
    pub schema_version: u16,
    pub name: String,
    pub tag: String,
    pub architecture: String,
    /// Layer digests, most recent first, as the wire format orders
    /// them.
    pub fs_layers: Vec<Layer>,
    pub history: Vec<V1Compat>,
    pub signatures: Vec<Signature>,
}

/// The layer digests of a schema 1 manifest, base image first — the
/// reverse of the wire order.
pub open spec fn spec_s1_layers(m: ManifestSchema1Signed) -> Seq<Seq<char>> {
    m.fs_layers@.map_values(|l: Layer| l.blob_sum@).reverse()
}

impl ManifestSchema1Signed {
    /// List digests of all layers referenced by this manifest.
    ///
    /// The returned layers list is ordered starting with the base
    /// image first.
    pub fn get_layers(&self) -> (r: Vec<String>)
        ensures
            spec_strings_view(r@) == spec_s1_layers(*self),
    {
        let ghost target = spec_s1_layers(*self);
        let mut r: Vec<String> = Vec::new();
        let n = self.fs_layers.len();
        let mut i: usize = 0;
        proof {
            assert(spec_strings_view(r@) =~= target.take(0));
        }
        while i < n
            invariant
                n == self.fs_layers@.len(),
                0 <= i <= n,
                target == spec_s1_layers(*self),
                spec_strings_view(r@) == target.take(i as int),
            decreases n - i,
        {
            let ghost prev = r@;
            r.push(self.fs_layers[n - 1 - i].blob_sum.clone());
            proof {
                crate::strutil::lemma_strings_view_push(
                    prev,
                    self.fs_layers@[n - 1 - i].blob_sum,
                );
                assert(target[i as int] == self.fs_layers@[n - 1 - i].blob_sum@);
                assert(target.take(i + 1) =~= target.take(i as int).push(target[i as int]));
            }
            i += 1;
        }
        proof {
            assert(target.take(n as int) =~= target);
        }
        r
    }
}

} // verus!
