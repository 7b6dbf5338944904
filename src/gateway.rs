//! The gateway's own part of each upstream call: the URL it sends to, the
//! rate-limit headers it takes back, and the body it answers with.

use vstd::prelude::*;
use crate::params::{Optional, Required};
use crate::rate_limit::{
    after_headers, header_text, limit_info_json, RateLimitTracker, LIMIT, REMAINING,
};
use crate::routes::BASE_URL;

verus! {

/// The credentials of the gateway and the rate-limit counters it has seen.
pub struct Unsplash {
    access_key: String,
    _secret_key: String,
    rate_limits: RateLimitTracker,
}

/// The query parameter that carries the access key.
pub open spec fn access_key_param(key: Seq<char>) -> Seq<char> {
    "client_id="@ + key
}

/// The separator before the access key of a passthrough URL: `&` where the
/// path already has a query, `?` otherwise.
pub open spec fn key_separator(path_and_query: Seq<char>) -> Seq<char> {
    if path_and_query.contains('?') {
        "&"@
    } else {
        "?"@
    }
}

/// The body the gateway answers with: the upstream body as it came, and the
/// rate-limit counters.
pub open spec fn text_response(body: Seq<char>, limits: RateLimitTracker) -> Seq<char> {
    "{\"body\": "@ + body + ", \"headers\": "@ + limit_info_json(limits.limit, limits.remaining)
        + "}"@
}

fn contains_char(s: &str, c: char) -> (r: bool)
    ensures
        r == s@.contains(c),
{
    let len = s.unicode_len();
    let mut i: usize = 0;
    while i < len
        invariant
            i <= len,
            len == s@.len(),
            forall|k: int| 0 <= k < i ==> s@[k] != c,
        decreases len - i,
    {
        if s.get_char(i) == c {
            return true;
        }
        i = i + 1;
    }
    false
}

impl Unsplash {
    /// The access key sent upstream.
    pub closed spec fn access_key_spec(&self) -> Seq<char> {
        self.access_key@
    }

    /// The secret key, which is held and never sent.
    pub closed spec fn secret_key_spec(&self) -> Seq<char> {
        self._secret_key@
    }

    /// The rate-limit counters as last reported.
    pub closed spec fn limits(&self) -> RateLimitTracker {
        self.rate_limits
    }

    pub fn new(access_key: &str, secret_key: &str) -> (r: Unsplash)
        ensures
            r.access_key_spec() == access_key@,
            r.secret_key_spec() == secret_key@,
            r.limits().limit == 50,
            r.limits().remaining == 0,
    {
        Unsplash {
            access_key: String::from_str(access_key),
            _secret_key: String::from_str(secret_key),
            rate_limits: RateLimitTracker::new(),
        }
    }

    pub fn get_access_key_param(&self) -> (r: String)
        ensures
            r@ == access_key_param(self.access_key_spec()),
    {
        let mut r = String::from_str("client_id=");
        r.append(self.access_key.as_str());
        r
    }

    /// The URL of a typed request: the base, the route's path, the required
    /// part of the query, the optional part the route takes, and the key.
    pub fn send_url<R: Required, O: Optional>(&self, required: &R, optional: &O) -> (r: String)
        ensures
            r@ == BASE_URL@ + required.route_spec().path@ + "?"@ + required.query_spec()
                + optional.query_spec(required.route_spec().path@) + "&"@ + access_key_param(
                self.access_key_spec(),
            ),
    {
        let route = required.get_route();
        let mut url = String::from_str(BASE_URL);
        url.append(route.path);
        url.append("?");
        url.append(required.to_query().as_str());
        url.append(optional.to_query(route.path).as_str());
        url.append("&");
        url.append(self.get_access_key_param().as_str());
        url
    }

    /// The URL of a passthrough request: the base, the path and query as
    /// given, and the key after `&` or `?`.
    pub fn passthrough_url(&self, path_and_query: &str) -> (r: String)
        ensures
            r@ == BASE_URL@ + path_and_query@ + key_separator(path_and_query@) + access_key_param(
                self.access_key_spec(),
            ),
    {
        let mut url = String::from_str(BASE_URL);
        url.append(path_and_query);
        if contains_char(path_and_query, '?') {
            url.append("&");
        } else {
            url.append("?");
        }
        url.append(self.get_access_key_param().as_str());
        url
    }

    /// Takes in the value of one response header: the limit or the remaining
    /// count, by its name; any other header changes nothing.
    pub fn store_rate_limits(&mut self, header: &str, value: Option<&str>)
        ensures
            final(self).access_key_spec() == old(self).access_key_spec(),
            final(self).secret_key_spec() == old(self).secret_key_spec(),
            final(self).limits() == (if header@ == LIMIT@ {
                after_headers(old(self).limits(), header_text(value), None)
            } else if header@ == REMAINING@ {
                after_headers(old(self).limits(), None, header_text(value))
            } else {
                old(self).limits()
            }),
    {
        let name = String::from_str(header);
        if name == String::from_str(LIMIT) {
            self.rate_limits.record_from_headers(value, None);
        } else if name == String::from_str(REMAINING) {
            self.rate_limits.record_from_headers(None, value);
        }
    }

    /// The rate-limit counters as a JSON object, with no upstream call.
    pub fn get_limit_info(&self) -> (r: String)
        ensures
            r@ == limit_info_json(self.limits().limit, self.limits().remaining),
    {
        self.rate_limits.limit_info()
    }

    /// The answer to a caller: the upstream body, unread, and the counters.
    pub fn make_text_response(&self, body: &str) -> (r: String)
        ensures
            r@ == text_response(body@, self.limits()),
    {
        let mut r = String::from_str("{\"body\": ");
        r.append(body);
        r.append(", \"headers\": ");
        r.append(self.get_limit_info().as_str());
        r.append("}");
        r
    }
}

} // verus!
