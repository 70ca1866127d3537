use vstd::prelude::*;
use crate::og::{has_prefix, starts_with};
use crate::text::str_chars;

verus! {

/// The query of a search request; an absent query is empty.
pub struct SearchQuery {
    pub q: String,
}

impl Default for SearchQuery {
    fn default() -> (r: SearchQuery)
        ensures
            r.q@ == Seq::<char>::empty(),
    {
        SearchQuery { q: String::new() }
    }
}

/// Middleware that marks static files as cacheable for an hour.
pub struct CacheControlMiddleware;

/// The service that `CacheControlMiddleware` wraps around an inner service.
pub struct CacheControlMiddlewareService<S> {
    pub service: S,
}

pub open spec fn static_prefix() -> Seq<char> {
    seq!['/', 's', 't', 'a', 't', 'i', 'c']
}

impl CacheControlMiddleware {
    /// Whether a response to a request for `path` gets the long cache header:
    /// exactly the paths under `/static`.
    pub fn applies_to(path: &str) -> (r: bool)
        ensures
            r == has_prefix(path@, static_prefix()),
    {
        let p = str_chars(path);
        let pre = ['/', 's', 't', 'a', 't', 'i', 'c'];
        assert(pre@ == static_prefix());
        starts_with(&p, &pre)
    }

    /// The cache header value given to static files.
    pub fn header_value() -> (r: &'static str)
        ensures
            r@ == "public, max-age=3600"@,
    {
        proof {
            reveal_strlit("public, max-age=3600");
        }
        "public, max-age=3600"
    }
}

} // verus!
