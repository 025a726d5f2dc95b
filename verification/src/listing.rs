//! Turning a listing-endpoint response into canonical items and the next
//! pagination cursor.
//!
//! The endpoint answers with `{ "data": { "children": [ { "data": { "title",
//! "selftext", "name" } }, ... ] } }`. Each child yields one item, its
//! `title` and `selftext` defaulting to the empty string when absent, and its
//! `name` (the stable identifier the cursor is built from) likewise, so that
//! one malformed item does not block the rest of the page.

use vstd::prelude::*;
use vstd::string::*;

use crate::json::{json_get, json_of, parse_json, spec_get, Json};

verus! {

/// Why a page could not be fetched: a non-success HTTP status, or a response
/// body whose JSON misses the expected array of children.
#[derive(Debug)]
pub enum FetchError {
    Http { status: u16, body: String },
    MalformedResponse,
}

/// The mathematical value of a `FetchError`.
pub enum FetchErrorV {
    Http { status: u16, body: Seq<char> },
    MalformedResponse,
}

impl View for FetchError {
    type V = FetchErrorV;

    open spec fn view(&self) -> FetchErrorV {
        match self {
            FetchError::Http { status, body } => FetchErrorV::Http {
                status: *status,
                body: body@,
            },
            FetchError::MalformedResponse => FetchErrorV::MalformedResponse,
        }
    }
}

/// One item of a listing page: a title, a body text, and the source's stable
/// identifier for the item.
#[derive(Debug)]
pub struct ListingItem {
    pub title: String,
    pub content: String,
    pub item_id: String,
}

impl View for ListingItem {
    type V = (Seq<char>, Seq<char>, Seq<char>);

    open spec fn view(&self) -> (Seq<char>, Seq<char>, Seq<char>) {
        (self.title@, self.content@, self.item_id@)
    }
}

/// A fetched listing page: its items in source order, and the identifier of
/// the last item, absent when the page is empty.
#[derive(Debug)]
pub struct ListingPage {
    pub items: Vec<ListingItem>,
    pub last_id: Option<String>,
}

impl View for ListingPage {
    type V = (Seq<(Seq<char>, Seq<char>, Seq<char>)>, Option<Seq<char>>);

    open spec fn view(&self) -> Self::V {
        (
            self.items@.map_values(|it: ListingItem| it@),
            match self.last_id {
                Some(s) => Some(s@),
                None => None,
            },
        )
    }
}

/// The string a JSON string value holds, or the empty string for anything
/// else (a missing field, or a field of another type).
pub open spec fn spec_str_or_empty(v: Option<Json>) -> Seq<char> {
    match v {
        Some(Json::Str(s)) => s@,
        _ => Seq::empty(),
    }
}

/// One field of a child's `data` object, defaulted to the empty string.
pub open spec fn spec_child_field(c: Json, key: Seq<char>) -> Seq<char> {
    match spec_get(c, "data"@) {
        Some(d) => spec_str_or_empty(spec_get(d, key)),
        None => Seq::empty(),
    }
}

/// The item one child of the listing yields: title, content, identifier.
pub open spec fn spec_child_item(c: Json) -> (Seq<char>, Seq<char>, Seq<char>) {
    (
        spec_child_field(c, "title"@),
        spec_child_field(c, "selftext"@),
        spec_child_field(c, "name"@),
    )
}

/// The children array of a listing response, if the response has the
/// expected shape.
pub open spec fn spec_children(v: Json) -> Option<Seq<Json>> {
    match spec_get(v, "data"@) {
        Some(d) => match spec_get(d, "children"@) {
            Some(Json::Arr(cs)) => Some(cs@),
            _ => None,
        },
        None => None,
    }
}

/// Whether an HTTP status reports success.
pub open spec fn spec_is_success(status: u16) -> bool {
    200 <= status < 300
}

/// What a fetch yields from the HTTP status and body of the listing
/// endpoint's response: the items with the last item's identifier, or the
/// error. A function of the response alone: an unchanged upstream answer
/// gives an unchanged result.
pub open spec fn spec_posts_from_response(status: u16, body: Seq<char>) -> Result<
    (Seq<(Seq<char>, Seq<char>, Seq<char>)>, Option<Seq<char>>),
    FetchErrorV,
> {
    if !spec_is_success(status) {
        Err(FetchErrorV::Http { status, body })
    } else {
        match json_of(body) {
            None => Err(FetchErrorV::MalformedResponse),
            Some(v) => match spec_children(v) {
                None => Err(FetchErrorV::MalformedResponse),
                Some(cs) => Ok(
                    (
                        cs.map_values(|c: Json| spec_child_item(c)),
                        if cs.len() == 0 {
                            None
                        } else {
                            Some(spec_child_item(cs.last()).2)
                        },
                    ),
                ),
            },
        }
    }
}

/// One field of a child, defaulting to the empty string when the child or
/// the field does not have the expected shape.
fn child_field(c: &Json, key: &str) -> (r: String)
    ensures
        r@ == spec_child_field(*c, key@),
{
    match json_get(c, "data") {
        Some(d) => match json_get(d, key) {
            Some(j) => match j {
                Json::Str(s) => s.clone(),
                _ => String::new(),
            },
            None => String::new(),
        },
        None => String::new(),
    }
}

/// The item a child of the listing yields.
fn child_item(c: &Json) -> (r: ListingItem)
    ensures
        r@ == spec_child_item(*c),
{
    ListingItem {
        title: child_field(c, "title"),
        content: child_field(c, "selftext"),
        item_id: child_field(c, "name"),
    }
}

/// Extracts the listing page from a parsed response document: every child in
/// order, and the last child's identifier as the next cursor value.
pub fn extract_page(v: &Json) -> (r: Result<ListingPage, FetchError>)
    ensures
        match spec_children(*v) {
            Some(cs) => match r {
                Ok(page) => page@.0 == cs.map_values(|c: Json| spec_child_item(c)) && page@.1
                    == (if cs.len() == 0 {
                    None
                } else {
                    Some(spec_child_item(cs.last()).2)
                }),
                Err(_) => false,
            },
            None => r matches Err(e) && e@ == FetchErrorV::MalformedResponse,
        },
{
    let data = match json_get(v, "data") {
        Some(d) => d,
        None => {
            return Err(FetchError::MalformedResponse);
        },
    };
    let children = match json_get(data, "children") {
        Some(c) => match c {
            Json::Arr(cs) => {
                proof {
                    assert(*c =~= Json::Arr(*cs));
                }
                cs
            },
            _ => {
                return Err(FetchError::MalformedResponse);
            },
        },
        None => {
            return Err(FetchError::MalformedResponse);
        },
    };
    proof {
        assert(spec_children(*v) == Some(children@));
    }
    let ghost cs = children@;
    let n = children.len();
    let mut items: Vec<ListingItem> = Vec::new();
    let mut i: usize = 0;
    while i < n
        invariant
            n == cs.len(),
            0 <= i <= n,
            children@ == cs,
            items@.len() == i,
            forall|k: int| 0 <= k < i ==> items@[k]@ == spec_child_item(cs[k]),
        decreases n - i,
    {
        items.push(child_item(&children[i]));
        i += 1;
    }
    let last_id = if items.len() == 0 {
        None
    } else {
        Some(items[items.len() - 1].item_id.clone())
    };
    let page = ListingPage { items, last_id };
    proof {
        assert(page@.0 =~= cs.map_values(|c: Json| spec_child_item(c)));
    }
    Ok(page)
}

/// Turns the listing endpoint's raw response into a page of items and the
/// next cursor value.
///
/// Success is owed exactly when the status reports success and the body is
/// JSON of the expected shape; a non-success status yields `Http` with that
/// status and body, and any other body yields `MalformedResponse`.
pub fn posts_from_response(status: u16, body: &str) -> (r: Result<ListingPage, FetchError>)
    ensures
        match r {
            Ok(page) => spec_posts_from_response(status, body@) == Ok::<_, FetchErrorV>(page@),
            Err(e) => spec_posts_from_response(status, body@) == Err::<
                (Seq<(Seq<char>, Seq<char>, Seq<char>)>, Option<Seq<char>>),
                _,
            >(e@),
        },
{
    if !(200 <= status && status < 300) {
        return Err(FetchError::Http { status, body: body.to_owned() });
    }
    match parse_json(body) {
        None => Err(FetchError::MalformedResponse),
        Some(v) => match extract_page(&v) {
            Ok(page) => Ok(page),
            Err(e) => Err(e),
        },
    }
}

/// The listing URL for one fetch: the cursor rides along as the `after`
/// query parameter only when it is present; an absent cursor emits no
/// parameter at all.
pub open spec fn spec_listing_url(source_id: Seq<char>, limit: u32, after: Option<Seq<char>>)
    -> Seq<char> {
    let base = "https://oauth.reddit.com/r/"@ + source_id + "/hot?limit="@
        + crate::numfmt::spec_udec(limit as nat);
    match after {
        Some(a) => base + "&after="@ + a,
        None => base,
    }
}

/// Builds the listing URL for one fetch.
pub fn build_listing_url(source_id: &str, limit: u32, after: &Option<String>) -> (r: String)
    ensures
        r@ == spec_listing_url(
            source_id@,
            limit,
            match after {
                Some(a) => Some(a@),
                None => None,
            },
        ),
{
    let mut url = "https://oauth.reddit.com/r/".to_owned();
    url.append(source_id);
    url.append("/hot?limit=");
    let dec = crate::numfmt::i64_to_dec_string(limit as i64);
    url.append(dec.as_str());
    match after {
        Some(a) => {
            url.append("&after=");
            url.append(a.as_str());
            proof {
                assert(url@ =~= spec_listing_url(source_id@, limit, Some(a@)));
            }
        },
        None => {
            proof {
                assert(url@ =~= spec_listing_url(source_id@, limit, None));
            }
        },
    }
    url
}

/// The value of the `Authorization` header for a listing fetch.
pub fn build_bearer_auth(token: &str) -> (r: String)
    ensures
        r@ == "Bearer "@ + token@,
{
    let mut out = "Bearer ".to_owned();
    out.append(token);
    out
}

/// Two fetches of the listing endpoint that see the same response — the same
/// status and the same body, as an unchanged upstream listing answers them —
/// yield identical output: the same items and the same next cursor, or the
/// same error.
pub proof fn lemma_fetch_idempotent(st1: u16, b1: Seq<char>, st2: u16, b2: Seq<char>)
    requires
        st1 == st2,
        b1 == b2,
    ensures
        spec_posts_from_response(st1, b1) == spec_posts_from_response(st2, b2),
{
}

} // verus!
