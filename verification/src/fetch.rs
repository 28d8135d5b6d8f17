//! The retrieval itself, as a sequence of decisions. The caller sends what
//! `Fetcher::request` describes and reports the reply; `accept` judges the
//! reply before anything is decoded; the caller decodes the body of the page
//! that was accepted and reports the outcome; `Fetcher::on_page` adds the
//! page up and says whether another request follows.

use crate::commit::{normalize, normalized, Commit, CommitModel, RawCommitModel, RawCommitRecord};
use crate::link::{next_link, next_page, NextPage};
use crate::request::{initial_target, listing_headers, listing_target, Request, RequestModel};
use vstd::prelude::*;

verus! {

/// The least status of a reply that fails the retrieval.
pub const FIRST_FAILING_STATUS: u16 = 400;

/// Why no reply could be used: none came, or one with a failing status.
#[derive(Debug, Clone, PartialEq, Eq)]
pub enum TransportFailure {
    /// The request did not get a reply; the client's account of it.
    Connection(String),
    /// The reply had this status, which is 400 or above.
    Status(u16),
}

/// What a transport failure is.
pub enum TransportFailureModel {
    Connection(Seq<char>),
    Status(u16),
}

impl View for TransportFailure {
    type V = TransportFailureModel;

    open spec fn view(&self) -> TransportFailureModel {
        match self {
            TransportFailure::Connection(reason) => TransportFailureModel::Connection(reason@),
            TransportFailure::Status(status) => TransportFailureModel::Status(*status),
        }
    }
}

/// Why a retrieval ended without a result. Whatever had been gathered up to
/// then is given up with it.
#[derive(Debug, Clone, PartialEq, Eq)]
pub enum FetchError {
    /// No reply came, or one with a failing status.
    Transport(TransportFailure),
    /// The body of a reply was not what the endpoint is known to deliver.
    /// The body comes with the error as it was received.
    Decode { body: String, reason: String },
    /// The `Link` header of a reply names a next page, but no target that
    /// can be used; the text that could not be used.
    MalformedPagination(String),
}

/// What a failed retrieval is.
pub enum Failure {
    Transport(TransportFailureModel),
    Decode { body: Seq<char>, reason: Seq<char> },
    MalformedPagination(Seq<char>),
}

impl View for FetchError {
    type V = Failure;

    open spec fn view(&self) -> Failure {
        match self {
            FetchError::Transport(failure) => Failure::Transport(failure@),
            FetchError::Decode { body, reason } => Failure::Decode {
                body: body@,
                reason: reason@,
            },
            FetchError::MalformedPagination(text) => Failure::MalformedPagination(text@),
        }
    }
}

impl DeepView for FetchError {
    type V = Failure;

    open spec fn deep_view(&self) -> Failure {
        self@
    }
}

/// What came back for a request, as the caller reports it.
#[derive(Debug, Clone, PartialEq, Eq)]
pub enum Reply {
    /// No reply came; the client's account of it.
    Failed(String),
    /// A reply: its status, its `Link` header if it has one, and its body.
    Response { status: u16, link: Option<String>, body: String },
}

/// What a reply is.
pub enum ReplyModel {
    Failed(Seq<char>),
    Response { status: u16, link: Option<Seq<char>>, body: Seq<char> },
}

impl View for Reply {
    type V = ReplyModel;

    open spec fn view(&self) -> ReplyModel {
        match self {
            Reply::Failed(reason) => ReplyModel::Failed(reason@),
            Reply::Response { status, link, body } => ReplyModel::Response {
                status: *status,
                link: link.deep_view(),
                body: body@,
            },
        }
    }
}

/// What a page is: the `Link` header and the body of an accepted reply.
pub struct PageModel {
    pub link: Option<Seq<char>>,
    pub body: Seq<char>,
}

/// A reply that was accepted and whose body is now to be decoded. There is
/// no other way to a `Page` than `accept`.
#[derive(Debug)]
pub struct Page {
    link: Option<String>,
    body: String,
}

impl View for Page {
    type V = PageModel;

    closed spec fn view(&self) -> PageModel {
        PageModel { link: self.link.deep_view(), body: self.body@ }
    }
}

impl DeepView for Page {
    type V = PageModel;

    open spec fn deep_view(&self) -> PageModel {
        self@
    }
}

/// A result with each side replaced by what it stands for.
pub open spec fn outcome<T: DeepView, E: DeepView>(result: Result<T, E>) -> Result<T::V, E::V> {
    match result {
        Ok(value) => Ok(value.deep_view()),
        Err(error) => Err(error.deep_view()),
    }
}

/// How a reply is judged: a reply that did not come and a reply with a status
/// of 400 or above fail the retrieval, whatever the body holds; any other
/// reply is a page.
pub open spec fn accepted(reply: ReplyModel) -> Result<PageModel, Failure> {
    match reply {
        ReplyModel::Failed(reason) => Err(
            Failure::Transport(TransportFailureModel::Connection(reason)),
        ),
        ReplyModel::Response { status, link, body } => if status >= FIRST_FAILING_STATUS {
            Err(Failure::Transport(TransportFailureModel::Status(status)))
        } else {
            Ok(PageModel { link, body })
        },
    }
}

/// Judges a reply before anything of it is decoded.
///
/// A status of 400 or above ends the retrieval with a transport error,
/// whatever the body holds: no page comes of such a reply, so there is
/// nothing of it to decode.
pub fn accept(reply: Reply) -> (page: Result<Page, FetchError>)
    ensures
        outcome(page) == accepted(reply@),
{
    match reply {
        Reply::Failed(reason) => Err(FetchError::Transport(TransportFailure::Connection(reason))),
        Reply::Response { status, link, body } => {
            if status >= FIRST_FAILING_STATUS {
                Err(FetchError::Transport(TransportFailure::Status(status)))
            } else {
                Ok(Page { link, body })
            }
        },
    }
}

impl Page {
    /// The body of the reply, as it was received.
    pub fn body(&self) -> (body: &String)
        ensures
            body@ == self@.body,
    {
        &self.body
    }

    /// The `Link` header of the reply, if it had one.
    pub fn link(&self) -> (link: &Option<String>)
        ensures
            link.deep_view() == self@.link,
    {
        &self.link
    }
}

/// What the list that holds all commits in one reply comes to: the commits
/// as they were decoded, in the order of the list, or the failure to decode
/// them together with the body.
pub open spec fn listed(page: PageModel, decoded: Result<Seq<CommitModel>, Seq<char>>) -> Result<
    Seq<CommitModel>,
    Failure,
> {
    match decoded {
        Ok(commits) => Ok(commits),
        Err(reason) => Err(Failure::Decode { body: page.body, reason }),
    }
}

/// The master-branch Rust commits which should have accompanying bors
/// artifacts available, from the page that the list was accepted as and
/// the outcome of decoding its body.
///
/// The list is taken as it is: the first commit returned (at index 0) is
/// the most recent, the last is the oldest. A body that could not be decoded
/// ends the retrieval with a decode error that holds the body.
pub fn master_commits(page: Page, decoded: Result<Vec<Commit>, String>) -> (commits: Result<
    Vec<Commit>,
    FetchError,
>)
    ensures
        outcome(commits) == listed(page@, outcome(decoded)),
{
    match decoded {
        Ok(commits) => Ok(commits),
        Err(reason) => Err(FetchError::Decode { body: page.body, reason }),
    }
}

/// What a retrieval from the listing is while it runs: the request that is
/// out, and the records of the pages before it.
pub struct FetcherModel {
    pub request: RequestModel,
    pub records: Seq<RawCommitModel>,
}

/// A retrieval from the listing that waits for the reply to its request.
#[derive(Debug)]
pub struct Fetcher {
    request: Request,
    records: Vec<RawCommitRecord>,
}

impl View for Fetcher {
    type V = FetcherModel;

    closed spec fn view(&self) -> FetcherModel {
        FetcherModel { request: self.request@, records: self.records.deep_view() }
    }
}

impl DeepView for Fetcher {
    type V = FetcherModel;

    open spec fn deep_view(&self) -> FetcherModel {
        self@
    }
}

/// What a step of a retrieval leads to.
#[derive(Debug)]
pub enum Step {
    /// Another request is out.
    Next(Fetcher),
    /// The listing is exhausted; its commits, oldest first.
    Done(Vec<Commit>),
}

/// What a step of a retrieval leads to.
pub enum StepModel {
    Next(FetcherModel),
    Done(Seq<CommitModel>),
}

impl View for Step {
    type V = StepModel;

    open spec fn view(&self) -> StepModel {
        match self {
            Step::Next(fetcher) => StepModel::Next(fetcher@),
            Step::Done(commits) => StepModel::Done(commits.deep_view()),
        }
    }
}

impl DeepView for Step {
    type V = StepModel;

    open spec fn deep_view(&self) -> StepModel {
        self@
    }
}

/// The retrieval that begins with a request to `url`.
pub open spec fn begun(url: Seq<char>, credential: Option<Seq<char>>) -> FetcherModel {
    FetcherModel {
        request: RequestModel { url, headers: listing_headers(credential) },
        records: Seq::empty(),
    }
}

/// The retrieval for the window that ends at `now`, where its first target
/// can be built.
pub open spec fn started(now: int, credential: Option<Seq<char>>) -> Option<FetcherModel> {
    match listing_target(now) {
        Some(url) => Some(begun(url, credential)),
        None => None,
    }
}

/// What a decoded page leads to, given where its `Link` header points.
///
/// The records of the page are added behind those of the pages before it,
/// whatever follows. Without a next page the retrieval is done, and hands
/// out the commits of all records, last record first. With one, the request
/// is sent again to the new target, with every header that it had. A next
/// page that cannot be made out fails the retrieval.
pub open spec fn advanced(
    fetcher: FetcherModel,
    records: Seq<RawCommitModel>,
    next: NextPage<Seq<char>>,
) -> Result<StepModel, Failure> {
    let gathered = fetcher.records + records;
    match next {
        NextPage::Absent => Ok(StepModel::Done(normalized(gathered))),
        NextPage::At(url) => Ok(
            StepModel::Next(
                FetcherModel {
                    request: RequestModel { url, headers: fetcher.request.headers },
                    records: gathered,
                },
            ),
        ),
        NextPage::Malformed(text) => Err(Failure::MalformedPagination(text)),
    }
}

/// What an accepted page leads to, given the outcome of decoding its body.
///
/// A body that could not be decoded fails the retrieval, and the error holds
/// the body. Otherwise the `Link` header of the page decides what follows.
pub open spec fn page_outcome(
    fetcher: FetcherModel,
    page: PageModel,
    decoded: Result<Seq<RawCommitModel>, Seq<char>>,
) -> Result<StepModel, Failure> {
    match decoded {
        Ok(records) => advanced(fetcher, records, next_link(page.link)),
        Err(reason) => Err(Failure::Decode { body: page.body, reason }),
    }
}

impl Fetcher {
    /// Begins a retrieval with a request to `url`. With a credential every
    /// request of the retrieval carries the authorization.
    pub fn begin(url: String, credential: Option<String>) -> (fetcher: Fetcher)
        ensures
            fetcher@ == begun(url@, credential.deep_view()),
    {
        let fetcher = Fetcher { request: Request::to_listing(url, credential), records: Vec::new() };
        assert(fetcher.records.deep_view() =~= Seq::<RawCommitModel>::empty());
        fetcher
    }

    /// Begins the retrieval of the commits of the window that ends at `now`,
    /// given in seconds since 1970-01-01T00:00:00Z.
    ///
    /// There is none where the start of the window cannot be written as a
    /// time, or the target of the first request cannot be built.
    pub fn start(now: i64, credential: Option<String>) -> (fetcher: Option<Fetcher>)
        ensures
            fetcher.deep_view() == started(now as int, credential.deep_view()),
    {
        match initial_target(now) {
            Some(url) => Some(Fetcher::begin(url, credential)),
            None => None,
        }
    }

    /// The request that is out: the caller sends it and reports the reply.
    pub fn request(&self) -> (request: &Request)
        ensures
            request@ == self@.request,
    {
        &self.request
    }

    /// The records of the pages so far, in the order in which they came.
    pub fn records(&self) -> (records: &Vec<RawCommitRecord>)
        ensures
            records.deep_view() == self@.records,
    {
        &self.records
    }

    /// Adds the records of a decoded page and follows `next`, the place of
    /// the page after it.
    pub fn advance(self, records: Vec<RawCommitRecord>, next: NextPage<String>) -> (step: Result<
        Step,
        FetchError,
    >)
        ensures
            outcome(step) == advanced(self@, records.deep_view(), next@),
    {
        let ghost before = self.records.deep_view();
        let ghost added = records.deep_view();
        let mut gathered = self.records;
        let mut records = records;
        gathered.append(&mut records);
        assert(gathered.deep_view() =~= before + added);
        match next {
            NextPage::Absent => Ok(Step::Done(normalize(gathered))),
            NextPage::At(url) => Ok(
                Step::Next(Fetcher { request: self.request.retarget(url), records: gathered }),
            ),
            NextPage::Malformed(text) => Err(FetchError::MalformedPagination(text)),
        }
    }

    /// Takes an accepted page and the outcome of decoding its body, and says
    /// what follows.
    ///
    /// A decode error holds the body of the page as it was received. The
    /// records of a decoded page are kept even where it is the last: the
    /// retrieval ends behind the page whose `Link` header names no next one,
    /// not before it.
    pub fn on_page(self, page: Page, decoded: Result<Vec<RawCommitRecord>, String>) -> (step:
        Result<Step, FetchError>)
        ensures
            outcome(step) == page_outcome(self@, page@, outcome(decoded)),
    {
        match decoded {
            Ok(records) => {
                let next = next_page(&page.link);
                self.advance(records, next)
            },
            Err(reason) => Err(FetchError::Decode { body: page.body, reason }),
        }
    }
}

} // verus!
