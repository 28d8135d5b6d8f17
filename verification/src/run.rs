//! What a whole retrieval comes to. The steps of `fetch` are taken one
//! after the other here, over any series of pages, and what holds of every
//! such series is proved.

use crate::commit::{
    commit_times, lemma_normalized_oldest_first, newest_first, normalized, oldest_first,
    record_dates, CommitModel, RawCommitModel,
};
use crate::fetch::{
    accepted, advanced, begun, listed, page_outcome, Failure, FetcherModel, PageModel, ReplyModel,
    StepModel, TransportFailureModel, FIRST_FAILING_STATUS,
};
use crate::link::{lemma_prev_and_last_are_not_next, only_prev_and_last, NextPage};
use crate::request::listing_headers;
use vstd::prelude::*;

verus! {

/// A page that was decoded: its records, and where its `Link` header
/// points.
pub struct Turn {
    pub records: Seq<RawCommitModel>,
    pub next: NextPage<Seq<char>>,
}

/// What a retrieval comes to over the pages `pages`, taken in their order:
/// each page is added as `advanced` says, and a page that ends or fails the
/// retrieval is the last to be looked at.
pub open spec fn after_pages(fetcher: FetcherModel, pages: Seq<Turn>) -> Result<StepModel, Failure>
    decreases pages.len(),
{
    if pages.len() == 0 {
        Ok(StepModel::Next(fetcher))
    } else {
        match advanced(fetcher, pages.first().records, pages.first().next) {
            Ok(StepModel::Next(following)) => after_pages(following, pages.drop_first()),
            ended => ended,
        }
    }
}

/// The records of `pages`, page after page.
pub open spec fn records_of(pages: Seq<Turn>) -> Seq<RawCommitModel>
    decreases pages.len(),
{
    if pages.len() == 0 {
        Seq::empty()
    } else {
        pages.first().records + records_of(pages.drop_first())
    }
}

/// The number of records of `pages`: the counts of the pages added up.
pub open spec fn record_count(pages: Seq<Turn>) -> nat
    decreases pages.len(),
{
    if pages.len() == 0 {
        0
    } else {
        pages.first().records.len() + record_count(pages.drop_first())
    }
}

/// Whether `pages` is a listing from its first page to its last: every page
/// but the last points to a next one, and the last points to none.
pub open spec fn is_listing(pages: Seq<Turn>) -> bool {
    &&& pages.len() > 0
    &&& forall|i: int| 0 <= i < pages.len() - 1 ==> #[trigger] pages[i].next is At
    &&& pages.last().next is Absent
}

/// The records of a series of pages are as many as the pages hold.
pub proof fn lemma_record_count(pages: Seq<Turn>)
    ensures
        records_of(pages).len() == record_count(pages),
    decreases pages.len(),
{
    if pages.len() > 0 {
        lemma_record_count(pages.drop_first());
    }
}

/// A retrieval over a listing hands out every record of every page once:
/// the commits of the records gathered before, followed by those of the
/// pages in their order, last record first. Their number is the sum of the
/// counts of the pages and of what was gathered before.
pub proof fn lemma_listing_is_complete(fetcher: FetcherModel, pages: Seq<Turn>)
    requires
        is_listing(pages),
    ensures
        after_pages(fetcher, pages) == Ok::<StepModel, Failure>(
            StepModel::Done(normalized(fetcher.records + records_of(pages))),
        ),
        normalized(fetcher.records + records_of(pages)).len() == fetcher.records.len()
            + record_count(pages),
    decreases pages.len(),
{
    lemma_record_count(pages);
    let rest = pages.drop_first();
    if pages.len() == 1 {
        assert(pages.first() == pages.last());
        assert(records_of(rest) =~= Seq::<RawCommitModel>::empty());
        assert(records_of(pages) =~= pages.first().records);
    } else {
        assert(pages[0].next is At);
        let following = advanced(fetcher, pages.first().records, pages.first().next)->Ok_0->Next_0;
        assert(is_listing(rest)) by {
            assert forall|i: int| 0 <= i < rest.len() - 1 implies #[trigger] rest[i].next is At by {
                assert(rest[i] == pages[i + 1]);
            }
            assert(rest.last() == pages.last());
        }
        lemma_listing_is_complete(following, rest);
        assert(following.records + records_of(rest) =~= fetcher.records + records_of(pages));
    }
}

/// A retrieval over a listing whose records come newest first, page after
/// page, hands its commits out oldest first.
pub proof fn lemma_listing_comes_out_oldest_first(fetcher: FetcherModel, pages: Seq<Turn>)
    requires
        is_listing(pages),
        newest_first(record_dates(fetcher.records + records_of(pages))),
    ensures
        after_pages(fetcher, pages) matches Ok(StepModel::Done(commits)) && oldest_first(
            commit_times(commits),
        ),
{
    lemma_listing_is_complete(fetcher, pages);
    lemma_normalized_oldest_first(fetcher.records + records_of(pages));
}

/// The list that holds all commits in one reply is handed out as it was
/// decoded: the same commits in the same order.
pub proof fn lemma_list_is_taken_as_it_is(page: PageModel, commits: Seq<CommitModel>)
    ensures
        listed(page, Ok(commits)) == Ok::<Seq<CommitModel>, Failure>(commits),
{
}

/// Every request of a retrieval carries the headers of the first one: a
/// retrieval that still runs after any series of pages has a request out
/// with those headers.
pub proof fn lemma_headers_stay(fetcher: FetcherModel, pages: Seq<Turn>)
    ensures
        after_pages(fetcher, pages) matches Ok(StepModel::Next(reached))
            ==> reached.request.headers == fetcher.request.headers,
    decreases pages.len(),
{
    if pages.len() > 0 {
        match advanced(fetcher, pages.first().records, pages.first().next) {
            Ok(StepModel::Next(following)) => {
                lemma_headers_stay(following, pages.drop_first());
            },
            _ => {},
        }
    }
}

/// A retrieval that began with a credential sends it with every request,
/// the first and each that follows a page: the request that is out after
/// any series of pages has the header `Authorization` with the value
/// `token ` and the credential.
pub proof fn lemma_credential_on_every_request(
    url: Seq<char>,
    credential: Seq<char>,
    pages: Seq<Turn>,
)
    ensures
        after_pages(begun(url, Some(credential)), pages) matches Ok(StepModel::Next(reached)) ==> {
            &&& reached.request.headers == listing_headers(Some(credential))
            &&& reached.request.headers.len() == 2
            &&& reached.request.headers[1] == ("Authorization"@, "token "@ + credential)
        },
{
    lemma_headers_stay(begun(url, Some(credential)), pages);
}

/// A reply with a status of 400 or above fails with a transport error that
/// names the status, whatever its body and its headers hold, and no page
/// comes of it.
pub proof fn lemma_failing_status_is_not_decoded(
    status: u16,
    link: Option<Seq<char>>,
    body: Seq<char>,
)
    requires
        status >= FIRST_FAILING_STATUS,
    ensures
        accepted(ReplyModel::Response { status, link, body }) == Err::<PageModel, Failure>(
            Failure::Transport(TransportFailureModel::Status(status)),
        ),
{
}

/// A body that is not decoded fails the retrieval with a decode error that
/// holds the body of the reply as it came, on the listing and on the list
/// in one reply alike.
pub proof fn lemma_decode_error_holds_body(
    fetcher: FetcherModel,
    status: u16,
    link: Option<Seq<char>>,
    body: Seq<char>,
    reason: Seq<char>,
)
    requires
        status < FIRST_FAILING_STATUS,
    ensures
        accepted(ReplyModel::Response { status, link, body }) matches Ok(page) && page_outcome(
            fetcher,
            page,
            Err(reason),
        ) == Err::<StepModel, Failure>(Failure::Decode { body, reason }) && listed(
            page,
            Err(reason),
        ) == Err::<Seq<CommitModel>, Failure>(Failure::Decode { body, reason }),
{
}

/// A page whose `Link` header states only `prev` and `last` relations is
/// the last page, and it counts: the retrieval is done, and its result
/// holds the records of that page behind those gathered before.
pub proof fn lemma_last_page_counts(
    fetcher: FetcherModel,
    header: Seq<char>,
    body: Seq<char>,
    records: Seq<RawCommitModel>,
)
    requires
        only_prev_and_last(header),
    ensures
        page_outcome(fetcher, PageModel { link: Some(header), body }, Ok(records)) == Ok::<
            StepModel,
            Failure,
        >(StepModel::Done(normalized(fetcher.records + records))),
{
    lemma_prev_and_last_are_not_next(header);
}

} // verus!
