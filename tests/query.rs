use unsplash_api::params::Optional;
use unsplash_api::routes::{Method, Route, PHOTOS_RANDOM, SEARCH_PHOTOS};
use unsplash_api::text::{encode_query_value, parse_count};
use unsplash_api::{Optionals, Orientation, PhotosRandom, Required, SearchPhotos};

fn unset() -> Optionals {
    Optionals {
        page: None,
        per_page: None,
        collections: None,
        orientation: None,
        featured: None,
        username: None,
        query: None,
        count: None,
    }
}

fn all_set() -> Optionals {
    Optionals {
        page: Some(3),
        per_page: Some(10),
        collections: Some(String::from("196,197")),
        orientation: Some(Orientation::Portrait),
        featured: Some(true),
        username: Some(String::from("bob")),
        query: Some(String::from("cats")),
        count: Some(7),
    }
}

#[test]
fn array_to_string() {
    assert_eq!(Optionals::_array_to_string(&vec![196, 197]), "196,197");
    assert_eq!(Optionals::_array_to_string(&vec![196]), "196");
    assert_eq!(Optionals::_array_to_string(&Vec::<u32>::new()), "");
}

#[test]
fn array_to_string_large_values() {
    assert_eq!(Optionals::_array_to_string(&vec![0, 4294967295, 10]), "0,4294967295,10");
}

#[test]
fn unset_fields_give_no_tokens() {
    let o = unset();
    assert_eq!(o.to_query(SEARCH_PHOTOS), "");
    assert_eq!(o.to_query(PHOTOS_RANDOM), "");
    assert_eq!(o.page(), "");
    assert_eq!(o.count(), "");
}

#[test]
fn only_set_fields_are_written() {
    let mut o = unset();
    o.per_page = Some(30);
    assert_eq!(o.to_query(SEARCH_PHOTOS), "&per_page=30");
    o.username = Some(String::from("ann"));
    assert_eq!(o.to_query(PHOTOS_RANDOM), "&username=ann");
}

#[test]
fn search_route_drops_random_only_fields() {
    let o = all_set();
    assert_eq!(
        o.to_query(SEARCH_PHOTOS),
        "&page=3&per_page=10&collections=196,197&orientation=portrait"
    );
}

#[test]
fn random_route_drops_paging_fields() {
    let o = all_set();
    assert_eq!(
        o.to_query(PHOTOS_RANDOM),
        "&collections=196,197&query=cats&featured=true&username=bob&orientation=portrait&count=7"
    );
}

#[test]
fn unknown_route_gives_empty_fragment() {
    let o = all_set();
    assert_eq!(o.to_query("users/bob"), "");
    assert_eq!(o.to_query(""), "");
}

#[test]
fn field_tokens() {
    let mut o = all_set();
    assert_eq!(o.page(), "&page=3");
    assert_eq!(o.featured(), "&featured=true");
    o.featured = Some(false);
    assert_eq!(o.featured(), "&featured=false");
    o.orientation = Some(Orientation::Squarish);
    assert_eq!(o.orientation(), "&orientation=squarish");
    o.count = Some(255);
    assert_eq!(o.count(), "&count=255");
    o.count = Some(0);
    assert_eq!(o.count(), "&count=0");
    assert_eq!(o.query(), "&query=cats");
    assert_eq!(o.collections(), "&collections=196,197");
    assert_eq!(o.username(), "&username=bob");
    assert_eq!(o.per_page(), "&per_page=10");
}

#[test]
fn count_out_of_range_passes_through() {
    let mut o = unset();
    o.count = Some(99);
    assert_eq!(o.to_query(PHOTOS_RANDOM), "&count=99");
}

#[test]
fn orientation_names() {
    assert_eq!(Orientation::Landscape.as_str(), "landscape");
    assert_eq!(Orientation::Portrait.as_str(), "portrait");
    assert_eq!(Orientation::Squarish.as_str(), "squarish");
}

#[test]
fn encoder_escapes_space_and_quote() {
    let e = encode_query_value("red \"panda\"");
    assert_eq!(e, "red%20%22panda%22");
    assert!(!e.contains(' '));
    assert!(!e.contains('"'));
    assert_eq!(encode_query_value(&e), e);
}

#[test]
fn encoder_escapes_controls_and_non_ascii() {
    assert_eq!(encode_query_value("a\nb\u{7f}"), "a%0Ab%7F");
    assert_eq!(encode_query_value("caf\u{e9}"), "caf%C3%A9");
    assert_eq!(encode_query_value("\u{1}"), "%01");
}

#[test]
fn encoder_keeps_safe_text() {
    assert_eq!(encode_query_value(""), "");
    assert_eq!(encode_query_value("azAZ09-._~%"), "azAZ09-._~%");
}

#[test]
fn encoder_escapes_reserved_delimiters() {
    assert_eq!(encode_query_value("a&b#c"), "a%26b%23c");
    assert_eq!(encode_query_value("a,b&c=d?e/f%"), "a%2Cb%26c%3Dd%3Fe%2Ff%");
    assert_eq!(
        encode_query_value(":/?#[]@!$&'()*+,;="),
        "%3A%2F%3F%23%5B%5D%40%21%24%26%27%28%29%2A%2B%2C%3B%3D"
    );
    let e = encode_query_value("x+y=z&w");
    assert_eq!(encode_query_value(&e), e);
}

#[test]
fn search_text_cannot_add_parameters() {
    let r = SearchPhotos { query: String::from("cats&page=9") };
    assert_eq!(r.to_query(), "query=cats%26page%3D9");
}

#[test]
fn search_photos_required_part() {
    let r = SearchPhotos { query: String::from("red panda") };
    assert_eq!(r.to_query(), "query=red%20panda");
    let route = r.get_route();
    assert_eq!(route.method, Method::Get);
    assert_eq!(route.path, "search/photos");
}

#[test]
fn photos_random_required_part() {
    let r = PhotosRandom {};
    assert_eq!(r.to_query(), "");
    let route = r.get_route();
    assert_eq!(route.method, Method::Get);
    assert_eq!(route.path, "photos/random");
}

#[test]
fn route_new_keeps_fields() {
    let r = Route::new(Method::Post, "x/y");
    assert_eq!(r.method, Method::Post);
    assert_eq!(r.path, "x/y");
}

#[test]
fn parse_count_cases() {
    assert_eq!(parse_count("37"), Some(37));
    assert_eq!(parse_count("+5"), Some(5));
    assert_eq!(parse_count("007"), Some(7));
    assert_eq!(parse_count(""), None);
    assert_eq!(parse_count("+"), None);
    assert_eq!(parse_count("-1"), None);
    assert_eq!(parse_count("4x"), None);
    assert_eq!(parse_count(" 4"), None);
    assert_eq!(parse_count("18446744073709551615"), Some(18446744073709551615));
    assert_eq!(parse_count("18446744073709551616"), None);
    assert_eq!(parse_count("99999999999999999999999x"), None);
}
