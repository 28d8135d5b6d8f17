//! Retrieval of the mainline integration commits of the Rust repository.
//!
//! The crate holds everything about that retrieval that is a decision or a
//! computation: which request to issue, how a reply is judged, where the next
//! page lies, how the pages add up and in which order the commits are handed
//! out. Sending a request and decoding a body are left to the caller, who
//! reports each outcome back.

pub mod commit;
pub mod fetch;
pub mod link;
pub mod request;
pub mod run;
pub mod target;
pub mod window;

pub use commit::{normalize, Commit, RawCommitDetail, RawCommitRecord, RawCommitter, Timestamp};
pub use fetch::{
    accept, master_commits, FetchError, Fetcher, Page, Reply, Step, TransportFailure,
};
pub use link::{located, next_page, scan_link_header, NextPage};
pub use request::Request;
