//! Repository catalog listing: page URL building. The cursor
//! mechanics live in [`crate::v2::pagination`].

use vstd::prelude::*;

verus! {

/// One page of the repository catalog.
#[derive(Debug, Clone)]
pub struct CatalogChunk {
    /// The repositories of this page.
    pub repositories: Vec<String>,
}

/// The catalog endpoint: `{base}/v2/_catalog`.
pub fn catalog_url(base: &str) -> (r: String)
    ensures
        r@ == base@ + "/v2/_catalog"@,
{
    let mut r = String::from_str(base);
    r.append("/v2/_catalog");
    r
}

} // verus!
