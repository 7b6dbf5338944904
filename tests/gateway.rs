use unsplash_api::rate_limit::{LIMIT, REMAINING};
use unsplash_api::{Optionals, Orientation, PhotosRandom, RateLimitTracker, SearchPhotos, Unsplash};

fn unset() -> Optionals {
    Optionals {
        page: None,
        per_page: None,
        collections: None,
        orientation: None,
        featured: None,
        username: None,
        query: None,
        count: None,
    }
}

#[test]
fn search_url_scenario() {
    let u = Unsplash::new("KEY", "SECRET");
    let mut o = unset();
    o.page = Some(2);
    o.collections = Some(String::from("196,197"));
    let required = SearchPhotos { query: String::from("red panda") };
    assert_eq!(
        u.send_url(&required, &o),
        "https://api.unsplash.com/search/photos?query=red%20panda&page=2&collections=196,197&client_id=KEY"
    );
}

#[test]
fn random_url_scenario() {
    let u = Unsplash::new("KEY", "SECRET");
    let mut o = unset();
    o.count = Some(5);
    o.orientation = Some(Orientation::Landscape);
    assert_eq!(
        u.send_url(&PhotosRandom {}, &o),
        "https://api.unsplash.com/photos/random?&orientation=landscape&count=5&client_id=KEY"
    );
}

#[test]
fn passthrough_url_scenario() {
    let u = Unsplash::new("KEY", "SECRET");
    assert_eq!(
        u.passthrough_url("photos/abc123?utm=1"),
        "https://api.unsplash.com/photos/abc123?utm=1&client_id=KEY"
    );
    assert_eq!(
        u.passthrough_url("photos/abc123"),
        "https://api.unsplash.com/photos/abc123?client_id=KEY"
    );
}

#[test]
fn access_key_param() {
    let u = Unsplash::new("abc", "SECRET");
    assert_eq!(u.get_access_key_param(), "client_id=abc");
}

#[test]
fn limit_info_scenario() {
    let mut u = Unsplash::new("KEY", "SECRET");
    u.store_rate_limits(LIMIT, Some("50"));
    u.store_rate_limits(REMAINING, Some("37"));
    assert_eq!(
        u.get_limit_info(),
        "{\"X-Ratelimit-Limit\": 50, \"X-Ratelimit-Remaining\": 37}"
    );
}

#[test]
fn limit_info_defaults() {
    let u = Unsplash::new("KEY", "SECRET");
    assert_eq!(
        u.get_limit_info(),
        "{\"X-Ratelimit-Limit\": 50, \"X-Ratelimit-Remaining\": 0}"
    );
}

#[test]
fn unreadable_or_unknown_headers_change_nothing() {
    let mut u = Unsplash::new("KEY", "SECRET");
    u.store_rate_limits(LIMIT, Some("lots"));
    u.store_rate_limits(REMAINING, None);
    u.store_rate_limits("X-Other", Some("12"));
    assert_eq!(
        u.get_limit_info(),
        "{\"X-Ratelimit-Limit\": 50, \"X-Ratelimit-Remaining\": 0}"
    );
}

#[test]
fn text_response_wraps_body() {
    let mut u = Unsplash::new("KEY", "SECRET");
    u.store_rate_limits(REMAINING, Some("49"));
    assert_eq!(
        u.make_text_response("[1, 2]"),
        "{\"body\": [1, 2], \"headers\": {\"X-Ratelimit-Limit\": 50, \"X-Ratelimit-Remaining\": 49}}"
    );
}

#[test]
fn missing_remaining_keeps_remaining() {
    let mut t = RateLimitTracker::new();
    t.record_from_headers(Some("10"), Some("8"));
    assert_eq!(t.snapshot(), (10, 8));
    t.record_from_headers(Some("60"), None);
    assert_eq!(t.snapshot(), (60, 8));
    t.record_from_headers(None, Some("x"));
    assert_eq!(t.snapshot(), (60, 8));
}

#[test]
fn tracker_limit_info() {
    let mut t = RateLimitTracker::new();
    assert_eq!(t.snapshot(), (50, 0));
    t.record_from_headers(Some("5000"), Some("4999"));
    assert_eq!(
        t.limit_info(),
        "{\"X-Ratelimit-Limit\": 5000, \"X-Ratelimit-Remaining\": 4999}"
    );
}
