//! The rate-limit counters that the upstream API reports in its response
//! headers, kept between calls.

use vstd::prelude::*;
use crate::text::{decimal, parse_count, parsed_count, push_decimal};

verus! {

/// The header that carries the request quota of the current window.
pub const LIMIT: &'static str = "X-Ratelimit-Limit";

/// The header that carries what is left of that quota.
pub const REMAINING: &'static str = "X-Ratelimit-Remaining";

/// The last rate-limit values reported upstream.
#[derive(Clone, Copy, Debug, PartialEq, Eq, Structural)]
pub struct RateLimitTracker {
    pub limit: usize,
    pub remaining: usize,
}

/// The text of a header, if the response has it.
pub open spec fn header_text(h: Option<&str>) -> Option<Seq<char>> {
    match h {
        Some(s) => Some(s@),
        None => None,
    }
}

/// A counter after a header was seen: the header's value where it is present
/// and reads as an integer, the counter's prior value otherwise.
pub open spec fn counter_after(prior: usize, header: Option<Seq<char>>) -> usize {
    match header {
        Some(text) => match parsed_count(text) {
            Some(n) => n as usize,
            None => prior,
        },
        None => prior,
    }
}

/// The counters after a response with the given limit and remaining headers.
pub open spec fn after_headers(
    t: RateLimitTracker,
    limit: Option<Seq<char>>,
    remaining: Option<Seq<char>>,
) -> RateLimitTracker {
    RateLimitTracker {
        limit: counter_after(t.limit, limit),
        remaining: counter_after(t.remaining, remaining),
    }
}

/// The counters as a JSON object keyed by their header names.
pub open spec fn limit_info_json(limit: usize, remaining: usize) -> Seq<char> {
    "{\""@ + LIMIT@ + "\": "@ + decimal(limit as nat) + ", \""@ + REMAINING@ + "\": "@
        + decimal(remaining as nat) + "}"@
}

impl RateLimitTracker {
    /// The counters before any response came: a limit of 50 and nothing left.
    pub fn new() -> (r: RateLimitTracker)
        ensures
            r.limit == 50,
            r.remaining == 0,
    {
        RateLimitTracker { limit: 50, remaining: 0 }
    }

    /// Takes in the two rate-limit headers of a response; each counter whose
    /// header is missing or unreadable keeps its value.
    pub fn record_from_headers(&mut self, limit: Option<&str>, remaining: Option<&str>)
        ensures
            *final(self) == after_headers(*old(self), header_text(limit), header_text(remaining)),
    {
        if let Some(text) = limit {
            if let Some(n) = parse_count(text) {
                self.limit = n;
            }
        }
        if let Some(text) = remaining {
            if let Some(n) = parse_count(text) {
                self.remaining = n;
            }
        }
    }

    /// The current (limit, remaining) pair.
    pub fn snapshot(&self) -> (r: (usize, usize))
        ensures
            r == (self.limit, self.remaining),
    {
        (self.limit, self.remaining)
    }

    /// The counters as a JSON object keyed by their header names.
    pub fn limit_info(&self) -> (r: String)
        ensures
            r@ == limit_info_json(self.limit, self.remaining),
    {
        let mut r = String::from_str("{\"");
        r.append(LIMIT);
        r.append("\": ");
        push_decimal(&mut r, self.limit as u64);
        r.append(", \"");
        r.append(REMAINING);
        r.append("\": ");
        push_decimal(&mut r, self.remaining as u64);
        r.append("}");
        r
    }
}

/// The two counters are independent: a response without a remaining header
/// leaves the remaining count as it was, and still updates the limit when its
/// header reads as an integer.
pub proof fn lemma_counters_independent(t: RateLimitTracker, limit: Option<Seq<char>>)
    ensures
        after_headers(t, limit, None).remaining == t.remaining,
        after_headers(t, limit, None).limit == match limit {
            Some(text) => match parsed_count(text) {
                Some(n) => n as usize,
                None => t.limit,
            },
            None => t.limit,
        },
{
}

} // verus!
