//! Requests as values: where one goes and which headers it carries. Every
//! request of this crate is a `GET`.

use crate::target::{build_url, url_with_params, MAX_URL_PART};
use crate::window::{since_parameter, since_text};
use vstd::prelude::*;
use vstd::string::*;

verus! {

/// The listing of the commits of the Rust repository.
pub const ENDPOINT: &'static str = "https://api.github.com/repos/rust-lang/rust/commits";

/// The list that holds the integration commits in one reply.
pub const AGGREGATE_ENDPOINT: &'static str = "https://triage.rust-lang.org/bors-commit-list";

/// The author of the integration commits.
pub const AUTHOR: &'static str = "bors";

/// The number of commits asked for in one page.
pub const PAGE_SIZE: &'static str = "100";

/// The name under which every request to the listing goes out.
pub const USER_AGENT: &'static str = "rustc-artifacts";

/// What a request is: its target and its headers, each a name and a value,
/// in the order in which they are set.
pub struct RequestModel {
    pub url: Seq<char>,
    pub headers: Seq<(Seq<char>, Seq<char>)>,
}

/// A `GET` request that is still to be sent.
#[derive(Debug, Clone, PartialEq, Eq)]
pub struct Request {
    pub url: String,
    pub headers: Vec<(String, String)>,
}

impl View for Request {
    type V = RequestModel;

    open spec fn view(&self) -> RequestModel {
        RequestModel { url: self.url@, headers: self.headers.deep_view() }
    }
}

impl DeepView for Request {
    type V = RequestModel;

    open spec fn deep_view(&self) -> RequestModel {
        self@
    }
}

/// The headers of every request to the listing: the user agent and, with a
/// credential, the authorization that it gives.
pub open spec fn listing_headers(credential: Option<Seq<char>>) -> Seq<(Seq<char>, Seq<char>)> {
    match credential {
        Some(token) => seq![("User-Agent"@, USER_AGENT@), ("Authorization"@, "token "@ + token)],
        None => seq![("User-Agent"@, USER_AGENT@)],
    }
}

/// The query of the first request to the listing: the commits of the
/// integration author since `since`, a page at a time.
pub open spec fn listing_query(since: Seq<char>) -> Seq<(Seq<char>, Seq<char>)> {
    seq![("author"@, AUTHOR@), ("since"@, since), ("per_page"@, PAGE_SIZE@)]
}

/// The target of the first request to the listing for the commits since
/// `since`: the listing with its query, where the URL can be built. None is
/// built from a text of more than `MAX_URL_PART` characters.
pub open spec fn listing_url(since: Seq<char>) -> Option<Seq<char>> {
    if since.len() <= MAX_URL_PART {
        url_with_params(ENDPOINT@, listing_query(since))
    } else {
        None
    }
}

/// The target of the first request to the listing for the window that ends
/// at `now`, where the bound of the window can be written and the URL built.
pub open spec fn listing_target(now: int) -> Option<Seq<char>> {
    match since_text(now) {
        Some(since) => listing_url(since),
        None => None,
    }
}

/// Builds the headers of every request to the listing.
pub fn headers_for(credential: Option<String>) -> (headers: Vec<(String, String)>)
    ensures
        headers.deep_view() == listing_headers(credential.deep_view()),
{
    let mut headers: Vec<(String, String)> = Vec::new();
    headers.push((String::from_str("User-Agent"), String::from_str(USER_AGENT)));
    match credential {
        Some(token) => {
            let value = String::from_str("token ").concat(token.as_str());
            headers.push((String::from_str("Authorization"), value));
            assert(headers.deep_view() =~= listing_headers(Some(token@)));
        },
        None => {
            assert(headers.deep_view() =~= listing_headers(None));
        },
    }
    headers
}

/// Builds the query of the first request to the listing.
pub fn query_since(since: String) -> (query: Vec<(String, String)>)
    ensures
        query.deep_view() == listing_query(since@),
{
    let mut query: Vec<(String, String)> = Vec::new();
    query.push((String::from_str("author"), String::from_str(AUTHOR)));
    query.push((String::from_str("since"), since));
    query.push((String::from_str("per_page"), String::from_str(PAGE_SIZE)));
    assert(query.deep_view() =~= listing_query(since@));
    query
}

/// Builds the target of the first request to the listing for the commits
/// since `since`, the lower bound of the window as a request states it.
pub fn target_since(since: String) -> (url: Option<String>)
    ensures
        url.deep_view() == listing_url(since@),
{
    if since.as_str().unicode_len() > MAX_URL_PART {
        return None;
    }
    let ghost bound = since@;
    let query = query_since(since);
    proof {
        reveal_strlit("https://api.github.com/repos/rust-lang/rust/commits");
        reveal_strlit("author");
        reveal_strlit("bors");
        reveal_strlit("since");
        reveal_strlit("per_page");
        reveal_strlit("100");
        let pairs = listing_query(bound);
        assert(pairs.len() == 3);
        assert(pairs[0] == ("author"@, AUTHOR@));
        assert(pairs[1] == ("since"@, bound));
        assert(pairs[2] == ("per_page"@, PAGE_SIZE@));
        assert(query@.len() == query.deep_view().len());
        assert forall|i: int| 0 <= i < query@.len() implies (#[trigger] query@[i]).0@.len()
            <= MAX_URL_PART && query@[i].1@.len() <= MAX_URL_PART by {
            assert(query.deep_view()[i] == (query@[i].0@, query@[i].1@));
            assert(query.deep_view()[i] == pairs[i]);
        }
    }
    build_url(ENDPOINT, &query)
}

/// Builds the target of the first request to the listing for the window
/// that ends at `now`, given in seconds since 1970-01-01T00:00:00Z.
pub fn initial_target(now: i64) -> (url: Option<String>)
    ensures
        url.deep_view() == listing_target(now as int),
{
    match since_parameter(now) {
        Some(since) => target_since(since),
        None => None,
    }
}

impl Request {
    /// The request to the listing at `url`.
    pub fn to_listing(url: String, credential: Option<String>) -> (request: Request)
        ensures
            request@.url == url@,
            request@.headers == listing_headers(credential.deep_view()),
    {
        Request { url, headers: headers_for(credential) }
    }

    /// The request for the list that holds all commits in one reply. It
    /// carries no header of this crate's.
    pub fn to_aggregate() -> (request: Request)
        ensures
            request@.url == AGGREGATE_ENDPOINT@,
            request@.headers == Seq::<(Seq<char>, Seq<char>)>::empty(),
    {
        let request = Request { url: String::from_str(AGGREGATE_ENDPOINT), headers: Vec::new() };
        assert(request@.headers =~= Seq::<(Seq<char>, Seq<char>)>::empty());
        request
    }

    /// The same request to another target: every header stays.
    pub fn retarget(self, url: String) -> (request: Request)
        ensures
            request@.url == url@,
            request@.headers == self@.headers,
    {
        Request { url, headers: self.headers }
    }
}

} // verus!
