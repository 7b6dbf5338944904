//! The parameters of an upstream operation: the required ones, which name the
//! operation, and a shared bag of optional ones, of which each route takes a
//! fixed list.

use vstd::prelude::*;
use crate::routes::{Method, Route, PHOTOS_RANDOM, SEARCH_PHOTOS};
use crate::text::{decimal, encode_query_value, percent_encoded, push_decimal};

verus! {

/// The required parameters of one operation, which also fix its route.
pub trait Required {
    /// The route of the operation.
    spec fn route_spec(&self) -> Route;

    /// The required part of the query string.
    spec fn query_spec(&self) -> Seq<char>;

    fn get_route(&self) -> (r: Route)
        ensures
            r == self.route_spec(),
    ;

    fn to_query(&self) -> (r: String)
        ensures
            r@ == self.query_spec(),
    ;
}

/// The optional parameters of a request, rendered for a given route.
pub trait Optional {
    /// The optional part of the query string for the route at `path`.
    spec fn query_spec(&self, path: Seq<char>) -> Seq<char>;

    fn to_query(&self, path: &str) -> (r: String)
        ensures
            r@ == self.query_spec(path@),
    ;
}

/// A photo search by free text.
pub struct SearchPhotos {
    pub query: String,
}

impl Required for SearchPhotos {
    open spec fn route_spec(&self) -> Route {
        Route { method: Method::Get, path: SEARCH_PHOTOS }
    }

    open spec fn query_spec(&self) -> Seq<char> {
        "query="@ + percent_encoded(self.query@)
    }

    fn get_route(&self) -> (r: Route) {
        Route::new(Method::Get, SEARCH_PHOTOS)
    }

    fn to_query(&self) -> (r: String) {
        let mut r = String::from_str("query=");
        let encoded = encode_query_value(self.query.as_str());
        r.append(encoded.as_str());
        r
    }
}

/// A request for random photos; it has no required parameter.
pub struct PhotosRandom {}

impl Required for PhotosRandom {
    open spec fn route_spec(&self) -> Route {
        Route { method: Method::Get, path: PHOTOS_RANDOM }
    }

    open spec fn query_spec(&self) -> Seq<char> {
        Seq::empty()
    }

    fn get_route(&self) -> (r: Route) {
        Route::new(Method::Get, PHOTOS_RANDOM)
    }

    fn to_query(&self) -> (r: String) {
        String::new()
    }
}

/// The orientation of the photos asked for.
#[derive(Clone, Copy, Debug, PartialEq, Eq, Structural)]
pub enum Orientation {
    Landscape,
    Portrait,
    Squarish,
}

/// The name of an orientation in a query string.
pub open spec fn orientation_name(o: Orientation) -> Seq<char> {
    match o {
        Orientation::Landscape => "landscape"@,
        Orientation::Portrait => "portrait"@,
        Orientation::Squarish => "squarish"@,
    }
}

impl Orientation {
    pub fn as_str(&self) -> (r: &'static str)
        ensures
            r@ == orientation_name(*self),
    {
        match self {
            Orientation::Landscape => "landscape",
            Orientation::Portrait => "portrait",
            Orientation::Squarish => "squarish",
        }
    }
}

/// The optional parameters of a request; an unset one is left out of the query.
pub struct Optionals {
    pub page: Option<u32>,
    pub per_page: Option<u32>,
    pub collections: Option<String>,
    pub orientation: Option<Orientation>,
    pub featured: Option<bool>,
    pub username: Option<String>,
    pub query: Option<String>,
    pub count: Option<u8>,
}

/// The name of one optional parameter.
#[derive(Clone, Copy, Debug, PartialEq, Eq, Structural)]
pub enum Field {
    Page,
    PerPage,
    Collections,
    Orientation,
    Featured,
    Username,
    Query,
    Count,
}

/// What stands before the value of a field in a query string.
pub open spec fn field_key(f: Field) -> Seq<char> {
    match f {
        Field::Page => "&page="@,
        Field::PerPage => "&per_page="@,
        Field::Collections => "&collections="@,
        Field::Orientation => "&orientation="@,
        Field::Featured => "&featured="@,
        Field::Username => "&username="@,
        Field::Query => "&query="@,
        Field::Count => "&count="@,
    }
}

/// The text of a boolean in a query string.
pub open spec fn bool_text(b: bool) -> Seq<char> {
    if b {
        "true"@
    } else {
        "false"@
    }
}

/// The value of a field as it is written in a query string, if the field is set.
pub open spec fn field_value(o: Optionals, f: Field) -> Option<Seq<char>> {
    match f {
        Field::Page => match o.page {
            Some(n) => Some(decimal(n as nat)),
            None => None,
        },
        Field::PerPage => match o.per_page {
            Some(n) => Some(decimal(n as nat)),
            None => None,
        },
        Field::Collections => match o.collections {
            Some(s) => Some(s@),
            None => None,
        },
        Field::Orientation => match o.orientation {
            Some(v) => Some(orientation_name(v)),
            None => None,
        },
        Field::Featured => match o.featured {
            Some(b) => Some(bool_text(b)),
            None => None,
        },
        Field::Username => match o.username {
            Some(s) => Some(s@),
            None => None,
        },
        Field::Query => match o.query {
            Some(s) => Some(s@),
            None => None,
        },
        Field::Count => match o.count {
            Some(n) => Some(decimal(n as nat)),
            None => None,
        },
    }
}

/// The `&name=value` token of a field; empty where the field is unset.
pub open spec fn field_token(o: Optionals, f: Field) -> Seq<char> {
    match field_value(o, f) {
        Some(v) => field_key(f) + v,
        None => Seq::empty(),
    }
}

/// The fields that the route at `path` takes, in the order they are written.
pub open spec fn whitelist(path: Seq<char>) -> Seq<Field> {
    if path == SEARCH_PHOTOS@ {
        seq![Field::Page, Field::PerPage, Field::Collections, Field::Orientation]
    } else if path == PHOTOS_RANDOM@ {
        seq![
            Field::Collections,
            Field::Query,
            Field::Featured,
            Field::Username,
            Field::Orientation,
            Field::Count,
        ]
    } else {
        Seq::empty()
    }
}

/// The tokens of the given fields, one after the other.
pub open spec fn render_fields(o: Optionals, fields: Seq<Field>) -> Seq<char>
    decreases fields.len(),
{
    if fields.len() == 0 {
        Seq::empty()
    } else {
        render_fields(o, fields.drop_last()) + field_token(o, fields.last())
    }
}

/// The optional part of the query string of a request for the route at `path`.
pub open spec fn optional_query(o: Optionals, path: Seq<char>) -> Seq<char> {
    render_fields(o, whitelist(path))
}

/// The fields that are written for the route at `path`: those it takes that are set.
pub open spec fn emitted_fields(o: Optionals, path: Seq<char>) -> Seq<Field> {
    whitelist(path).filter(|f: Field| field_value(o, f) is Some)
}

/// The numbers written in decimal and separated by commas.
pub open spec fn comma_list(ns: Seq<u32>) -> Seq<char>
    decreases ns.len(),
{
    if ns.len() == 0 {
        Seq::empty()
    } else if ns.len() == 1 {
        decimal(ns[0] as nat)
    } else {
        comma_list(ns.drop_last()) + seq![','] + decimal(ns.last() as nat)
    }
}

impl Optionals {
    /// The numbers of `arr` in decimal, separated by commas.
    pub fn _array_to_string(arr: &Vec<u32>) -> (r: String)
        ensures
            r@ == comma_list(arr@),
    {
        let mut r = String::new();
        let mut i: usize = 0;
        while i < arr.len()
            invariant
                i <= arr@.len(),
                r@ == comma_list(arr@.subrange(0, i as int)),
            decreases arr.len() - i,
        {
            if i > 0 {
                r.append(",");
                proof {
                    reveal_strlit(",");
                }
            }
            push_decimal(&mut r, arr[i] as u64);
            proof {
                let pre = arr@.subrange(0, i + 1);
                assert(pre.drop_last() =~= arr@.subrange(0, i as int));
                assert(r@ =~= comma_list(pre));
            }
            i = i + 1;
        }
        assert(arr@.subrange(0, arr@.len() as int) =~= arr@);
        r
    }

    pub fn page(&self) -> (r: String)
        ensures
            r@ == field_token(*self, Field::Page),
    {
        match self.page {
            Some(page) => {
                let mut r = String::from_str("&page=");
                push_decimal(&mut r, page as u64);
                r
            },
            None => String::new(),
        }
    }

    pub fn per_page(&self) -> (r: String)
        ensures
            r@ == field_token(*self, Field::PerPage),
    {
        match self.per_page {
            Some(per_page) => {
                let mut r = String::from_str("&per_page=");
                push_decimal(&mut r, per_page as u64);
                r
            },
            None => String::new(),
        }
    }

    pub fn collections(&self) -> (r: String)
        ensures
            r@ == field_token(*self, Field::Collections),
    {
        match &self.collections {
            Some(collections) => {
                let mut r = String::from_str("&collections=");
                r.append(collections.as_str());
                r
            },
            None => String::new(),
        }
    }

    pub fn orientation(&self) -> (r: String)
        ensures
            r@ == field_token(*self, Field::Orientation),
    {
        match &self.orientation {
            Some(orientation) => {
                let mut r = String::from_str("&orientation=");
                r.append(orientation.as_str());
                r
            },
            None => String::new(),
        }
    }

    pub fn featured(&self) -> (r: String)
        ensures
            r@ == field_token(*self, Field::Featured),
    {
        match self.featured {
            Some(featured) => {
                let mut r = String::from_str("&featured=");
                if featured {
                    r.append("true");
                } else {
                    r.append("false");
                }
                r
            },
            None => String::new(),
        }
    }

    pub fn username(&self) -> (r: String)
        ensures
            r@ == field_token(*self, Field::Username),
    {
        match &self.username {
            Some(username) => {
                let mut r = String::from_str("&username=");
                r.append(username.as_str());
                r
            },
            None => String::new(),
        }
    }

    pub fn query(&self) -> (r: String)
        ensures
            r@ == field_token(*self, Field::Query),
    {
        match &self.query {
            Some(query) => {
                let mut r = String::from_str("&query=");
                r.append(query.as_str());
                r
            },
            None => String::new(),
        }
    }

    pub fn count(&self) -> (r: String)
        ensures
            r@ == field_token(*self, Field::Count),
    {
        match self.count {
            Some(count) => {
                let mut r = String::from_str("&count=");
                push_decimal(&mut r, count as u64);
                r
            },
            None => String::new(),
        }
    }
}

impl Optional for Optionals {
    open spec fn query_spec(&self, path: Seq<char>) -> Seq<char> {
        optional_query(*self, path)
    }

    fn to_query(&self, path: &str) -> (r: String) {
        let path = String::from_str(path);
        let mut qs = String::new();
        if path == String::from_str(SEARCH_PHOTOS) {
            qs.append(self.page().as_str());
            qs.append(self.per_page().as_str());
            qs.append(self.collections().as_str());
            qs.append(self.orientation().as_str());
            proof {
                reveal_with_fuel(render_fields, 5);
                let fs = whitelist(path@);
                assert(fs.drop_last().drop_last().drop_last().drop_last() =~= Seq::<Field>::empty());
                assert(qs@ =~= render_fields(*self, fs));
            }
        } else if path == String::from_str(PHOTOS_RANDOM) {
            qs.append(self.collections().as_str());
            qs.append(self.query().as_str());
            qs.append(self.featured().as_str());
            qs.append(self.username().as_str());
            qs.append(self.orientation().as_str());
            qs.append(self.count().as_str());
            proof {
                reveal_with_fuel(render_fields, 7);
                let fs = whitelist(path@);
                assert(fs.drop_last().drop_last().drop_last().drop_last().drop_last().drop_last()
                    =~= Seq::<Field>::empty());
                assert(qs@ =~= render_fields(*self, fs));
            }
        }
        qs
    }
}

proof fn lemma_render_skips_unset(o: Optionals, fields: Seq<Field>)
    ensures
        render_fields(o, fields) == render_fields(o, fields.filter(|f: Field| field_value(o, f) is Some)),
    decreases fields.len(),
{
    let pred = |f: Field| field_value(o, f) is Some;
    reveal(Seq::filter);
    if fields.len() > 0 {
        let rest = fields.drop_last();
        let kept = rest.filter(pred);
        lemma_render_skips_unset(o, rest);
        assert(fields.filter(pred) == if pred(fields.last()) {
            kept.push(fields.last())
        } else {
            kept
        });
        if pred(fields.last()) {
            assert(kept.push(fields.last()).drop_last() =~= kept);
        } else {
            assert(render_fields(o, fields) =~= render_fields(o, rest));
        }
    }
}

/// An unset optional field leaves no token: the optional part of the query is
/// made of the tokens of the fields that the route takes and that are set,
/// and of nothing else.
pub proof fn lemma_unset_fields_omitted(o: Optionals, path: Seq<char>)
    ensures
        optional_query(o, path) == render_fields(o, emitted_fields(o, path)),
        forall|i: int| 0 <= i < emitted_fields(o, path).len()
            ==> field_value(o, #[trigger] emitted_fields(o, path)[i]) is Some,
{
    broadcast use vstd::seq_lib::group_filter_ensures;
    lemma_render_skips_unset(o, whitelist(path));
}

proof fn lemma_route_paths_differ()
    ensures
        SEARCH_PHOTOS@ != PHOTOS_RANDOM@,
{
    reveal_strlit("search/photos");
    reveal_strlit("photos/random");
    assert(SEARCH_PHOTOS@[0] != PHOTOS_RANDOM@[0]);
}

/// The search route writes no `featured`, `username`, `query` or `count`
/// token, set or not: clearing those fields leaves its query unchanged.
pub proof fn lemma_search_photos_whitelist(o: Optionals)
    ensures
        optional_query(o, SEARCH_PHOTOS@) == optional_query(
            Optionals { featured: None, username: None, query: None, count: None, ..o },
            SEARCH_PHOTOS@,
        ),
        !emitted_fields(o, SEARCH_PHOTOS@).contains(Field::Featured),
        !emitted_fields(o, SEARCH_PHOTOS@).contains(Field::Username),
        !emitted_fields(o, SEARCH_PHOTOS@).contains(Field::Query),
        !emitted_fields(o, SEARCH_PHOTOS@).contains(Field::Count),
{
    broadcast use vstd::seq_lib::group_filter_ensures;
    let cleared = Optionals { featured: None, username: None, query: None, count: None, ..o };
    reveal_with_fuel(render_fields, 5);
    let fs = whitelist(SEARCH_PHOTOS@);
    assert(fs.drop_last().drop_last().drop_last().drop_last() =~= Seq::<Field>::empty());
    assert(optional_query(o, SEARCH_PHOTOS@) =~= optional_query(cleared, SEARCH_PHOTOS@));
    let pred = |f: Field| field_value(o, f) is Some;
    if fs.filter(pred).contains(Field::Featured) {
        fs.lemma_filter_contains_rev(pred, Field::Featured);
    }
    if fs.filter(pred).contains(Field::Username) {
        fs.lemma_filter_contains_rev(pred, Field::Username);
    }
    if fs.filter(pred).contains(Field::Query) {
        fs.lemma_filter_contains_rev(pred, Field::Query);
    }
    if fs.filter(pred).contains(Field::Count) {
        fs.lemma_filter_contains_rev(pred, Field::Count);
    }
}

/// The random-photos route writes no `page` or `per_page` token, set or not:
/// clearing those fields leaves its query unchanged.
pub proof fn lemma_photos_random_whitelist(o: Optionals)
    ensures
        optional_query(o, PHOTOS_RANDOM@) == optional_query(
            Optionals { page: None, per_page: None, ..o },
            PHOTOS_RANDOM@,
        ),
        !emitted_fields(o, PHOTOS_RANDOM@).contains(Field::Page),
        !emitted_fields(o, PHOTOS_RANDOM@).contains(Field::PerPage),
{
    broadcast use vstd::seq_lib::group_filter_ensures;
    lemma_route_paths_differ();
    let cleared = Optionals { page: None, per_page: None, ..o };
    reveal_with_fuel(render_fields, 7);
    let fs = whitelist(PHOTOS_RANDOM@);
    assert(fs.drop_last().drop_last().drop_last().drop_last().drop_last().drop_last()
        =~= Seq::<Field>::empty());
    assert(optional_query(o, PHOTOS_RANDOM@) =~= optional_query(cleared, PHOTOS_RANDOM@));
    let pred = |f: Field| field_value(o, f) is Some;
    if fs.filter(pred).contains(Field::Page) {
        fs.lemma_filter_contains_rev(pred, Field::Page);
    }
    if fs.filter(pred).contains(Field::PerPage) {
        fs.lemma_filter_contains_rev(pred, Field::PerPage);
    }
}

/// Whether no free-text field of `o` holds an `&`.
pub open spec fn free_text_has_no_amp(o: Optionals) -> bool {
    &&& (o.collections matches Some(v) ==> !v@.contains('&'))
    &&& (o.username matches Some(v) ==> !v@.contains('&'))
    &&& (o.query matches Some(v) ==> !v@.contains('&'))
}

proof fn lemma_decimal_has_no_amp(n: nat)
    ensures
        !decimal(n).contains('&'),
    decreases n,
{
    if n >= 10 {
        lemma_decimal_has_no_amp(n / 10);
        assert forall|i: int| 0 <= i < decimal(n).len() implies decimal(n)[i] != '&' by {
            if i < decimal(n / 10).len() {
                assert(decimal(n)[i] == decimal(n / 10)[i]);
            }
        }
    }
}

proof fn lemma_literal_values_have_no_amp()
    ensures
        !"true"@.contains('&'),
        !"false"@.contains('&'),
        !"landscape"@.contains('&'),
        !"portrait"@.contains('&'),
        !"squarish"@.contains('&'),
{
    reveal_strlit("true");
    reveal_strlit("false");
    reveal_strlit("landscape");
    reveal_strlit("portrait");
    reveal_strlit("squarish");
}

proof fn lemma_keys_shape(f: Field)
    ensures
        field_key(f).len() > 0,
        field_key(f)[0] == '&',
        forall|i: int| 0 < i < field_key(f).len() ==> field_key(f)[i] != '&',
{
    reveal_strlit("&page=");
    reveal_strlit("&per_page=");
    reveal_strlit("&collections=");
    reveal_strlit("&orientation=");
    reveal_strlit("&featured=");
    reveal_strlit("&username=");
    reveal_strlit("&query=");
    reveal_strlit("&count=");
}

/// A token is empty, or an `&` followed by text that holds no other `&`.
proof fn lemma_token_shape(o: Optionals, f: Field)
    requires
        free_text_has_no_amp(o),
    ensures
        field_value(o, f) is Some <==> field_token(o, f).len() > 0,
        field_value(o, f) is Some ==> field_token(o, f)[0] == '&',
        forall|i: int| 0 < i < field_token(o, f).len() ==> field_token(o, f)[i] != '&',
{
    lemma_keys_shape(f);
    lemma_literal_values_have_no_amp();
    if let Some(v) = field_value(o, f) {
        match f {
            Field::Page => lemma_decimal_has_no_amp(o.page->0 as nat),
            Field::PerPage => lemma_decimal_has_no_amp(o.per_page->0 as nat),
            Field::Count => lemma_decimal_has_no_amp(o.count->0 as nat),
            _ => {},
        }
        let k = field_key(f);
        assert(!v.contains('&'));
        assert forall|i: int| 0 < i < field_token(o, f).len() implies field_token(o, f)[i] != '&' by {
            if i >= k.len() {
                assert(field_token(o, f)[i] == v[i - k.len()]);
            }
        }
    }
}

/// Each `&` of the rendered fields begins the whole token of one of them that is set.
proof fn lemma_amp_starts_set_token(o: Optionals, fields: Seq<Field>)
    requires
        free_text_has_no_amp(o),
    ensures
        forall|i: int| 0 <= i < render_fields(o, fields).len() && #[trigger] render_fields(o, fields)[i] == '&'
            ==> exists|j: int| #![trigger fields[j]] 0 <= j < fields.len() && {
                let r = render_fields(o, fields);
                let t = field_token(o, fields[j]);
                &&& field_value(o, fields[j]) is Some
                &&& i + t.len() <= r.len()
                &&& r.subrange(i, i + t.len()) == t
                &&& (i + t.len() == r.len() || r[i + t.len()] == '&')
            },
    decreases fields.len(),
{
    if fields.len() > 0 {
        let rest = fields.drop_last();
        let last = fields.last();
        let a = render_fields(o, rest);
        let t = field_token(o, last);
        let r = render_fields(o, fields);
        lemma_amp_starts_set_token(o, rest);
        lemma_token_shape(o, last);
        assert(r == a + t);
        assert forall|i: int| 0 <= i < r.len() && #[trigger] r[i] == '&' implies exists|j: int|
            #![trigger fields[j]] 0 <= j < fields.len() && {
                let u = field_token(o, fields[j]);
                &&& field_value(o, fields[j]) is Some
                &&& i + u.len() <= r.len()
                &&& r.subrange(i, i + u.len()) == u
                &&& (i + u.len() == r.len() || r[i + u.len()] == '&')
            } by {
            if i < a.len() {
                assert(a[i] == r[i]);
                let j = choose|j: int| #![trigger rest[j]] 0 <= j < rest.len() && {
                    let u = field_token(o, rest[j]);
                    &&& field_value(o, rest[j]) is Some
                    &&& i + u.len() <= a.len()
                    &&& a.subrange(i, i + u.len()) == u
                    &&& (i + u.len() == a.len() || a[i + u.len()] == '&')
                };
                let u = field_token(o, rest[j]);
                assert(fields[j] == rest[j]);
                assert(r.subrange(i, i + u.len()) =~= a.subrange(i, i + u.len()));
                if i + u.len() < a.len() {
                    assert(r[i + u.len()] == a[i + u.len()]);
                } else if t.len() > 0 {
                    assert(r[i + u.len()] == t[0]);
                }
            } else {
                assert(t[i - a.len()] == r[i]);
                assert(i == a.len());
                let j = fields.len() - 1;
                assert(fields[j] == last);
                assert(r.subrange(i, i + t.len()) =~= t);
            }
        }
    }
}

/// Read as `&`-separated tokens, the optional part of the query holds only
/// whole `name=value` tokens of fields that are set and that the route takes,
/// as long as no free-text value holds an `&`.
pub proof fn lemma_amp_tokens_are_set_whitelisted_fields(o: Optionals, path: Seq<char>)
    requires
        free_text_has_no_amp(o),
    ensures
        forall|i: int| 0 <= i < optional_query(o, path).len() && #[trigger] optional_query(o, path)[i] == '&'
            ==> exists|j: int| #![trigger whitelist(path)[j]] 0 <= j < whitelist(path).len() && {
                let r = optional_query(o, path);
                let t = field_token(o, whitelist(path)[j]);
                &&& field_value(o, whitelist(path)[j]) is Some
                &&& i + t.len() <= r.len()
                &&& r.subrange(i, i + t.len()) == t
                &&& (i + t.len() == r.len() || r[i + t.len()] == '&')
            },
{
    lemma_amp_starts_set_token(o, whitelist(path));
}

} // verus!
