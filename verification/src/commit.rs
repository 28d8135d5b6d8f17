//! Commits as the caller sees them, commit records as the listing endpoint
//! delivers them, and the step from the second to the first.

use vstd::prelude::*;

verus! {

/// An instant on the UTC time line: the whole seconds since
/// 1970-01-01T00:00:00Z and the nanoseconds into that second.
///
/// Within a leap second `nanos` runs on to 1_999_999_999; instants are
/// ordered by `secs` first and by `nanos` second.
#[derive(Debug, Clone, Copy, PartialEq, Eq, PartialOrd, Ord, Hash)]
pub struct Timestamp {
    pub secs: i64,
    pub nanos: u32,
}

impl View for Timestamp {
    type V = (int, int);

    open spec fn view(&self) -> (int, int) {
        (self.secs as int, self.nanos as int)
    }
}

impl DeepView for Timestamp {
    type V = (int, int);

    open spec fn deep_view(&self) -> (int, int) {
        self@
    }
}

/// Whether the instant `a` is `b` or lies before it.
pub open spec fn no_later(a: (int, int), b: (int, int)) -> bool {
    a.0 < b.0 || (a.0 == b.0 && a.1 <= b.1)
}

/// What a commit is: its hash, the pull request it merged, if known, and
/// the time it was committed.
pub struct CommitModel {
    pub sha: Seq<char>,
    pub pr: Option<nat>,
    pub time: (int, int),
}

/// A commit of the master branch.
#[derive(Debug, Clone, PartialEq, Eq)]
pub struct Commit {
    pub sha: String,
    /// This is the pull request which this commit merged in.
    pub pr: Option<u32>,
    pub time: Timestamp,
}

/// The number of a pull request as a natural number.
pub open spec fn pr_number(pr: Option<u32>) -> Option<nat> {
    match pr {
        Some(n) => Some(n as nat),
        None => None,
    }
}

impl View for Commit {
    type V = CommitModel;

    open spec fn view(&self) -> CommitModel {
        CommitModel { sha: self.sha@, pr: pr_number(self.pr), time: self.time@ }
    }
}

impl DeepView for Commit {
    type V = CommitModel;

    open spec fn deep_view(&self) -> CommitModel {
        self@
    }
}

/// The committer part of a commit record.
#[derive(Debug, Clone, PartialEq, Eq)]
pub struct RawCommitter {
    pub date: Timestamp,
}

/// The commit part of a commit record.
#[derive(Debug, Clone, PartialEq, Eq)]
pub struct RawCommitDetail {
    pub committer: RawCommitter,
}

/// One element of a page of the commit listing, with the fields that are
/// read from it.
#[derive(Debug, Clone, PartialEq, Eq)]
pub struct RawCommitRecord {
    pub sha: String,
    pub commit: RawCommitDetail,
    pub pr: Option<u32>,
}

/// What a commit record is: the same three values as a commit, the time
/// under the name the listing gives it.
pub struct RawCommitModel {
    pub sha: Seq<char>,
    pub date: (int, int),
    pub pr: Option<nat>,
}

impl RawCommitModel {
    /// The commit that the record describes: each field carried over.
    pub open spec fn commit(self) -> CommitModel {
        CommitModel { sha: self.sha, pr: self.pr, time: self.date }
    }
}

impl View for RawCommitRecord {
    type V = RawCommitModel;

    open spec fn view(&self) -> RawCommitModel {
        RawCommitModel {
            sha: self.sha@,
            date: self.commit.committer.date@,
            pr: pr_number(self.pr),
        }
    }
}

impl DeepView for RawCommitRecord {
    type V = RawCommitModel;

    open spec fn deep_view(&self) -> RawCommitModel {
        self@
    }
}

impl RawCommitRecord {
    /// Turns the record into the commit it describes.
    pub fn into_commit(self) -> (commit: Commit)
        ensures
            commit@ == self@.commit(),
    {
        Commit { sha: self.sha, pr: self.pr, time: self.commit.committer.date }
    }
}

/// The commits of `records`, last record first.
pub open spec fn normalized(records: Seq<RawCommitModel>) -> Seq<CommitModel> {
    Seq::new(records.len(), |i: int| records[records.len() - 1 - i].commit())
}

/// Whether each element of `times` is no later than the one before it.
pub open spec fn newest_first(times: Seq<(int, int)>) -> bool {
    forall|i: int, j: int| 0 <= i <= j < times.len() ==> no_later(times[j], times[i])
}

/// Whether each element of `times` is no later than the one after it.
pub open spec fn oldest_first(times: Seq<(int, int)>) -> bool {
    forall|i: int, j: int| 0 <= i <= j < times.len() ==> no_later(times[i], times[j])
}

/// The commit times of `commits`, in their order.
pub open spec fn commit_times(commits: Seq<CommitModel>) -> Seq<(int, int)> {
    Seq::new(commits.len(), |i: int| commits[i].time)
}

/// The dates of `records`, in their order.
pub open spec fn record_dates(records: Seq<RawCommitModel>) -> Seq<(int, int)> {
    Seq::new(records.len(), |i: int| records[i].date)
}

/// The hashes of `commits`, in their order.
pub open spec fn commit_hashes(commits: Seq<CommitModel>) -> Seq<Seq<char>> {
    Seq::new(commits.len(), |i: int| commits[i].sha)
}

/// The hashes of `records`, in their order.
pub open spec fn record_hashes(records: Seq<RawCommitModel>) -> Seq<Seq<char>> {
    Seq::new(records.len(), |i: int| records[i].sha)
}

/// Maps the records of a listing, which come newest first, to commits and
/// hands them out in the opposite order. No record is dropped or added.
pub fn normalize(records: Vec<RawCommitRecord>) -> (commits: Vec<Commit>)
    ensures
        commits.deep_view() == normalized(records.deep_view()),
{
    let ghost all = records.deep_view();
    let mut rest = records;
    let mut commits: Vec<Commit> = Vec::new();
    while rest.len() > 0
        invariant
            rest.len() + commits.len() == all.len(),
            rest.deep_view() == all.take(rest.len() as int),
            commits.deep_view() == normalized(all).take(commits.len() as int),
        decreases rest.len(),
    {
        let ghost before = rest.deep_view();
        let ghost done = commits.deep_view();
        let record = rest.pop().unwrap();
        assert(record@ == before[before.len() - 1]);
        let commit = record.into_commit();
        commits.push(commit);
        assert(rest.deep_view() =~= all.take(rest.len() as int));
        assert(commits.deep_view() =~= done.push(commit@));
        assert(commits.deep_view() =~= normalized(all).take(commits.len() as int));
    }
    assert(commits.deep_view() =~= normalized(all));
    commits
}

/// Records that come newest first leave `normalize` oldest first: of two
/// commits handed out, the earlier one in the result was committed no later
/// than the other.
pub proof fn lemma_normalized_oldest_first(records: Seq<RawCommitModel>)
    requires
        newest_first(record_dates(records)),
    ensures
        oldest_first(commit_times(normalized(records))),
{
    let dates = record_dates(records);
    let times = commit_times(normalized(records));
    assert forall|i: int, j: int| 0 <= i <= j < times.len() implies no_later(
        times[i],
        times[j],
    ) by {
        let n = records.len() as int;
        assert(times[i] == dates[n - 1 - i]);
        assert(times[j] == dates[n - 1 - j]);
    }
}

/// `normalize` keeps what was there and nothing else: the result is as long
/// as the input, each record's commit stands at the mirrored place, and
/// hashes that were pairwise distinct stay so.
pub proof fn lemma_normalized_is_a_reversal(records: Seq<RawCommitModel>)
    ensures
        normalized(records).len() == records.len(),
        forall|i: int|
            0 <= i < records.len() ==> #[trigger] normalized(records)[i]
                == records[records.len() - 1 - i].commit(),
        record_hashes(records).no_duplicates() ==> commit_hashes(
            normalized(records),
        ).no_duplicates(),
{
    let before = record_hashes(records);
    let after = commit_hashes(normalized(records));
    if before.no_duplicates() {
        assert forall|i: int, j: int| 0 <= i < after.len() && 0 <= j < after.len() && i != j
            implies after[i] != after[j] by {
            let n = records.len() as int;
            assert(after[i] == before[n - 1 - i]);
            assert(after[j] == before[n - 1 - j]);
        }
    }
}

} // verus!
