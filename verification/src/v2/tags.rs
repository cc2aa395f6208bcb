//! Tag listing: page URL building and response checks. The cursor
//! mechanics live in [`crate::v2::pagination`].

use vstd::prelude::*;

use crate::strutil::spec_starts_with;
use crate::strutil::starts_with_str;

verus! {

/// A chunk of tags for an image.
///
/// This contains a non-strict subset of the whole list of tags for an
/// image, depending on pagination option at request time.
#[derive(Debug, Clone)]
pub struct TagsChunk {
    /// Image repository name.
    pub name: String,
    /// Subset of tags.
    pub tags: Vec<String>,
}

/// The tag-list endpoint for a repository:
/// `{base}/v2/{name}/tags/list`.
pub fn tags_url(base: &str, name: &str) -> (r: String)
    ensures
        r@ == base@ + "/v2/"@ + name@ + "/tags/list"@,
{
    let mut r = String::from_str(base);
    r.append("/v2/");
    r.append(name);
    r.append("/tags/list");
    r
}

/// Whether a tag-list response declares the JSON content type the
/// protocol calls for. A mismatch is tolerated — some registries
/// answer with the wrong type — but reported to the caller.
pub fn tags_content_type_ok(content_type: Option<&str>) -> (r: bool)
    ensures
        r == (match content_type {
            Some(h) => spec_starts_with(h@, "application/json"@),
            None => false,
        }),
{
    match content_type {
        Some(h) => starts_with_str(h, "application/json"),
        None => false,
    }
}

} // verus!
