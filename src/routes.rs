//! The fixed table of upstream operations: an HTTP method and a path each.

use vstd::prelude::*;

verus! {

/// The HTTP method an upstream operation is issued with.
#[derive(Clone, Copy, Debug, PartialEq, Eq, Structural)]
pub enum Method {
    Get,
    Post,
}

/// An upstream operation: its method and its path below the base URL.
#[derive(Clone, Copy, Debug)]
pub struct Route {
    pub method: Method,
    pub path: &'static str,
}

impl Route {
    pub fn new(method: Method, path: &'static str) -> (r: Route)
        ensures
            r.method == method,
            r.path == path,
    {
        Route { method, path }
    }
}

pub const BASE_URL: &'static str = "https://api.unsplash.com/";

pub const SEARCH_PHOTOS: &'static str = "search/photos";

pub const PHOTOS_RANDOM: &'static str = "photos/random";

pub const LIMIT_INFO: &'static str = "limit-info";

} // verus!
