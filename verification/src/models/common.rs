//! Shared JSON:API envelope types for App Store Connect responses.

use vstd::prelude::*;

verus! {

/// JSON:API response envelope wrapping any data type.
#[derive(Debug)]
pub struct JsonApiResponse<T> {
    /// The primary data for the response.
    pub data: T,
    /// Pagination links, if present.
    pub links: Option<PagedDocumentLinks>,
}

/// Pagination links from a JSON:API document.
#[derive(Debug, Clone)]
pub struct PagedDocumentLinks {
    /// Link to the current page (`self` in the document).
    pub self_link: Option<String>,
    /// Link to the next page, if any.
    pub next: Option<String>,
}

/// A JSON:API resource object with typed attributes.
#[derive(Debug)]
pub struct Resource<A> {
    /// The unique identifier for this resource.
    pub id: String,
    /// The JSON:API resource type string (`type` in the document).
    pub resource_type: String,
    /// The resource-specific attributes.
    pub attributes: A,
}

/// The view of an optional string.
pub open spec fn opt_str_view(s: Option<String>) -> Option<Seq<char>> {
    match s {
        Some(v) => Some(v@),
        None => None,
    }
}

impl<T> JsonApiResponse<T> {
    /// The link to the next page: `links.next`, when both are present.
    pub open spec fn next_link(&self) -> Option<Seq<char>> {
        match self.links {
            Some(l) => opt_str_view(l.next),
            None => None,
        }
    }

    /// Splits the document into its primary data and the link to the next page.
    pub fn into_parts(self) -> (res: (T, Option<String>))
        ensures
            res.0 == self.data,
            opt_str_view(res.1) == self.next_link(),
    {
        let next = match self.links {
            Some(l) => l.next,
            None => None,
        };
        (self.data, next)
    }
}

} // verus!
