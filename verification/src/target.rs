//! The targets of requests, as the URL parser of the HTTP client reads and
//! writes them. Nothing here is proved: the two functions are the parser's,
//! and their results go by the names below.

use vstd::prelude::*;

verus! {

/// The most characters that the base or one side of a pair may have where a
/// URL is built from them.
pub const MAX_URL_PART: usize = 65_536;

/// The most pairs that may be added to the query of a URL that is built.
pub const MAX_URL_PAIRS: usize = 64;

/// What `reqwest::Url::parse` makes of `text`: the URL in its written form,
/// where it takes `text` for an absolute URL, and nothing where it refuses.
pub uninterp spec fn parsed_url(text: Seq<char>) -> Option<Seq<char>>;

/// What `reqwest::Url::parse_with_params` makes of `base` and `params`: the
/// URL of `base` in its written form with the pairs of `params` added to its
/// query in their order, and nothing where it refuses `base`.
pub uninterp spec fn url_with_params(
    base: Seq<char>,
    params: Seq<(Seq<char>, Seq<char>)>,
) -> Option<Seq<char>>;

/// Calls `reqwest::Url::parse`, the parser of the `url` crate, and turns
/// the URL it returns into the `String` that it holds. The contract claims
/// only that the outcome is a function of `text`, by the name `parsed_url`.
#[verifier::external_body]
pub(crate) fn parse_url(text: &str) -> (url: Option<String>)
    ensures
        url.deep_view() == parsed_url(text@),
{
    match reqwest::Url::parse(text) {
        Ok(url) => Some(url.into()),
        Err(_) => None,
    }
}

/// Calls `reqwest::Url::parse_with_params`, which parses `base` and adds
/// each pair of `params` to the query, and turns the URL it returns into
/// the `String` that it holds. The contract claims only that the outcome is
/// a function of `base` and `params`, by the name `url_with_params`.
///
/// The URL that is built keeps its offsets in 32 bits, and adding to the
/// query panics where its text has outgrown them. The bounds asked for here
/// keep the text, with every byte of it escaped, far below that size.
#[verifier::external_body]
pub(crate) fn build_url(base: &str, params: &Vec<(String, String)>) -> (url: Option<String>)
    requires
        base@.len() <= MAX_URL_PART,
        params@.len() <= MAX_URL_PAIRS,
        forall|i: int|
            0 <= i < params@.len() ==> (#[trigger] params@[i]).0@.len() <= MAX_URL_PART
                && params@[i].1@.len() <= MAX_URL_PART,
    ensures
        url.deep_view() == url_with_params(base@, params.deep_view()),
{
    match reqwest::Url::parse_with_params(base, params) {
        Ok(url) => Some(url.into()),
        Err(_) => None,
    }
}

} // verus!
