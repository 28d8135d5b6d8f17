use rustc_artifacts::{
    accept, master_commits, Commit, FetchError, Fetcher, NextPage, RawCommitDetail,
    RawCommitRecord, RawCommitter, Reply, Step, Timestamp, TransportFailure,
};

fn record(sha: &str, secs: i64) -> RawCommitRecord {
    RawCommitRecord {
        sha: sha.to_string(),
        commit: RawCommitDetail { committer: RawCommitter { date: Timestamp { secs, nanos: 0 } } },
        pr: None,
    }
}

fn commit(sha: &str, secs: i64, pr: Option<u32>) -> Commit {
    Commit { sha: sha.to_string(), pr, time: Timestamp { secs, nanos: 0 } }
}

fn response(status: u16, link: Option<&str>, body: &str) -> Reply {
    Reply::Response { status, link: link.map(|l| l.to_string()), body: body.to_string() }
}

fn authorization(fetcher: &Fetcher) -> Option<String> {
    fetcher
        .request()
        .headers
        .iter()
        .find(|(name, _)| name == "Authorization")
        .map(|(_, value)| value.clone())
}

fn next(step: Result<Step, FetchError>) -> Fetcher {
    match step {
        Ok(Step::Next(fetcher)) => fetcher,
        other => panic!("the retrieval should go on, but: {:?}", other),
    }
}

fn done(step: Result<Step, FetchError>) -> Vec<Commit> {
    match step {
        Ok(Step::Done(commits)) => commits,
        other => panic!("the retrieval should be done, but: {:?}", other),
    }
}

#[test]
fn two_pages_come_out_oldest_first() {
    let fetcher = Fetcher::begin("https://x/page1".to_string(), None);
    assert_eq!(fetcher.request().url, "https://x/page1");

    let page = accept(response(200, Some("<https://x/page2>; rel=\"next\""), "[c3, c2]")).unwrap();
    let fetcher = next(fetcher.on_page(page, Ok(vec![record("C3", 3), record("C2", 2)])));
    assert_eq!(fetcher.request().url, "https://x/page2");
    assert_eq!(fetcher.records(), &vec![record("C3", 3), record("C2", 2)]);

    let page = accept(response(200, None, "[c1]")).unwrap();
    let commits = done(fetcher.on_page(page, Ok(vec![record("C1", 1)])));
    assert_eq!(commits, vec![commit("C1", 1, None), commit("C2", 2, None), commit("C3", 3, None)]);
}

#[test]
fn the_result_is_as_long_as_the_pages_together() {
    let sizes = [100usize, 100, 100, 37];
    let mut fetcher = Fetcher::begin("https://x/commits?page=1".to_string(), None);
    let mut serial = 0i64;
    let mut all = Vec::new();
    for (i, size) in sizes.iter().enumerate() {
        let records: Vec<RawCommitRecord> = (0..*size)
            .map(|_| {
                serial += 1;
                record(&format!("{:040x}", serial), 1_000_000 - serial)
            })
            .collect();
        all.extend(records.clone());
        let last = i + 1 == sizes.len();
        let link = format!(
            "<https://x/commits?page={}>; rel=\"prev\", <https://x/commits?page={}>; rel=\"next\"",
            i,
            i + 2
        );
        let link = if last { "<https://x/commits?page=3>; rel=\"prev\"".to_string() } else { link };
        let page = accept(response(200, Some(&link), "")).unwrap();
        let step = fetcher.on_page(page, Ok(records));
        if last {
            let commits = done(step);
            assert_eq!(commits.len(), 337);
            all.reverse();
            let shas: Vec<&String> = commits.iter().map(|c| &c.sha).collect();
            let expected: Vec<&String> = all.iter().map(|r| &r.sha).collect();
            assert_eq!(shas, expected);
            return;
        }
        fetcher = next(step);
        assert_eq!(fetcher.request().url, format!("https://x/commits?page={}", i + 2));
        assert_eq!(fetcher.records().len(), all.len());
    }
    unreachable!();
}

#[test]
fn an_empty_first_page_is_an_empty_result() {
    let fetcher = Fetcher::begin("https://x/page1".to_string(), None);
    let page = accept(response(200, None, "[]")).unwrap();
    assert_eq!(done(fetcher.on_page(page, Ok(Vec::new()))), Vec::<Commit>::new());
}

#[test]
fn prev_and_last_end_the_listing_behind_the_page() {
    let fetcher = Fetcher::begin("https://x/p?page=2".to_string(), None);
    let link = "<https://x/p?page=1>; rel=\"prev\", <https://x/p?page=2>; rel=\"last\"";
    let page = accept(response(200, Some(link), "")).unwrap();
    let commits = done(fetcher.on_page(page, Ok(vec![record("b", 2), record("a", 1)])));
    assert_eq!(commits, vec![commit("a", 1, None), commit("b", 2, None)]);
}

#[test]
fn a_failing_status_is_a_transport_error() {
    for status in [400u16, 401, 403, 404, 429, 500, 503, 599, 600, 999, u16::MAX] {
        let reply = response(status, Some("<https://x/2>; rel=\"next\""), "[{\"sha\": \"abc\"}]");
        match accept(reply) {
            Err(error) => assert_eq!(error, FetchError::Transport(TransportFailure::Status(status))),
            Ok(page) => panic!("status {} was accepted: {:?}", status, page),
        }
    }
}

#[test]
fn a_status_below_400_is_accepted() {
    for status in [0u16, 100, 200, 204, 301, 304, 399] {
        let page = accept(response(status, Some("<https://x/2>; rel=\"next\""), "the body")).unwrap();
        assert_eq!(page.body(), "the body");
        assert_eq!(page.link(), &Some("<https://x/2>; rel=\"next\"".to_string()));
    }
}

#[test]
fn a_request_without_a_reply_is_a_transport_error() {
    assert_eq!(
        accept(Reply::Failed("connection refused".to_string())).unwrap_err(),
        FetchError::Transport(TransportFailure::Connection("connection refused".to_string()))
    );
}

#[test]
fn a_decode_error_holds_the_body() {
    let body = "[{\"commit\": {\"committer\": {\"date\": \"2024-01-01T00:00:00Z\"}}}]";
    let fetcher = Fetcher::begin("https://x/page1".to_string(), None);
    let page = accept(response(200, Some("<https://x/page2>; rel=\"next\""), body)).unwrap();
    let step = fetcher.on_page(page, Err("missing field `sha`".to_string()));
    assert_eq!(
        step.unwrap_err(),
        FetchError::Decode { body: body.to_string(), reason: "missing field `sha`".to_string() }
    );
}

#[test]
fn a_decode_error_on_a_later_page_gives_up_the_earlier_pages() {
    let fetcher = Fetcher::begin("https://x/page1".to_string(), None);
    let page = accept(response(200, Some("<https://x/page2>; rel=\"next\""), "")).unwrap();
    let fetcher = next(fetcher.on_page(page, Ok(vec![record("C3", 3)])));
    let page = accept(response(200, None, "{}")).unwrap();
    let step = fetcher.on_page(page, Err("invalid type: map, expected a sequence".to_string()));
    assert_eq!(
        step.unwrap_err(),
        FetchError::Decode {
            body: "{}".to_string(),
            reason: "invalid type: map, expected a sequence".to_string()
        }
    );
}

#[test]
fn a_next_entry_without_a_url_is_an_error() {
    let fetcher = Fetcher::begin("https://x/page1".to_string(), None);
    let page = accept(response(200, Some("<::nonsense::>; rel=\"next\""), "")).unwrap();
    let step = fetcher.on_page(page, Ok(vec![record("C3", 3)]));
    assert_eq!(step.unwrap_err(), FetchError::MalformedPagination("::nonsense::".to_string()));

    let fetcher = Fetcher::begin("https://x/page1".to_string(), None);
    let page = accept(response(200, Some("rel=\"next\""), "")).unwrap();
    let step = fetcher.on_page(page, Ok(vec![record("C3", 3)]));
    assert_eq!(step.unwrap_err(), FetchError::MalformedPagination("rel=\"next\"".to_string()));
}

#[test]
fn the_credential_goes_with_every_request() {
    let mut fetcher = Fetcher::begin("https://x/page1".to_string(), Some("abc".to_string()));
    assert_eq!(authorization(&fetcher), Some("token abc".to_string()));
    let first = fetcher.request().headers.clone();
    for page_number in 2..6 {
        let link = format!("<https://x/page{}>; rel=\"next\"", page_number);
        let page = accept(response(200, Some(&link), "")).unwrap();
        fetcher = next(fetcher.on_page(page, Ok(vec![record("c", 1)])));
        assert_eq!(fetcher.request().url, format!("https://x/page{}", page_number));
        assert_eq!(authorization(&fetcher), Some("token abc".to_string()));
        assert_eq!(fetcher.request().headers, first);
    }
}

#[test]
fn the_credential_goes_to_another_host_too() {
    let fetcher = Fetcher::begin("https://x/page1".to_string(), Some("abc".to_string()));
    let page = accept(response(200, Some("<https://elsewhere.example/p2>; rel=\"next\""), "")).unwrap();
    let fetcher = next(fetcher.on_page(page, Ok(Vec::new())));
    assert_eq!(fetcher.request().url, "https://elsewhere.example/p2");
    assert_eq!(authorization(&fetcher), Some("token abc".to_string()));
}

#[test]
fn without_a_credential_no_request_is_authorized() {
    let fetcher = Fetcher::begin("https://x/page1".to_string(), None);
    assert_eq!(authorization(&fetcher), None);
    let page = accept(response(200, Some("<https://x/page2>; rel=\"next\""), "")).unwrap();
    let fetcher = next(fetcher.on_page(page, Ok(Vec::new())));
    assert_eq!(authorization(&fetcher), None);
    assert_eq!(fetcher.request().headers.len(), 1);
}

#[test]
fn start_asks_the_listing_for_the_window() {
    let fetcher = Fetcher::start(1_700_000_000, Some("abc".to_string())).unwrap();
    assert_eq!(
        fetcher.request().url,
        "https://api.github.com/repos/rust-lang/rust/commits?author=bors&since=2023-05-30T22%3A13%3A20Z&per_page=100"
    );
    assert_eq!(authorization(&fetcher), Some("token abc".to_string()));
    assert_eq!(fetcher.request().headers[0].0, "User-Agent");
    assert!(fetcher.records().is_empty());
}

#[test]
fn start_needs_a_time_that_can_be_written() {
    assert!(Fetcher::start(i64::MIN, None).is_none());
    assert!(Fetcher::start(i64::MAX, None).is_none());
    assert!(Fetcher::start(253_402_300_799 + 14_515_200, None).is_some());
    assert!(Fetcher::start(253_402_300_799 + 14_515_200 + 1, None).is_none());
    assert!(Fetcher::start(-62_167_219_200 + 14_515_200, None).is_some());
    assert!(Fetcher::start(-62_167_219_200 + 14_515_200 - 1, None).is_none());
}

#[test]
fn advance_follows_the_place_it_is_given() {
    let fetcher = Fetcher::begin("https://x/page1".to_string(), None);
    let fetcher = next(fetcher.advance(vec![record("b", 2)], NextPage::At("https://x/page2".to_string())));
    assert_eq!(fetcher.request().url, "https://x/page2");
    let commits = done(fetcher.advance(vec![record("a", 1)], NextPage::Absent));
    assert_eq!(commits, vec![commit("a", 1, None), commit("b", 2, None)]);

    let fetcher = Fetcher::begin("https://x/page1".to_string(), None);
    let step = fetcher.advance(vec![record("b", 2)], NextPage::Malformed("???".to_string()));
    assert_eq!(step.unwrap_err(), FetchError::MalformedPagination("???".to_string()));
}

#[test]
fn master_commits_keeps_the_order_of_the_list() {
    let list = vec![commit("c3", 3, Some(103)), commit("c2", 2, None), commit("c1", 1, Some(101))];
    let page = accept(response(200, None, "[...]")).unwrap();
    assert_eq!(master_commits(page, Ok(list.clone())), Ok(list));
}

#[test]
fn master_commits_ignores_a_link_header() {
    let list = vec![commit("c2", 2, None), commit("c1", 1, None)];
    let page = accept(response(200, Some("<https://x/2>; rel=\"next\""), "")).unwrap();
    assert_eq!(master_commits(page, Ok(list.clone())), Ok(list));
}

#[test]
fn master_commits_of_an_undecoded_body_holds_the_body() {
    let page = accept(response(200, None, "<html>")).unwrap();
    assert_eq!(
        master_commits(page, Err("expected value at line 1 column 1".to_string())),
        Err(FetchError::Decode {
            body: "<html>".to_string(),
            reason: "expected value at line 1 column 1".to_string()
        })
    );
}

#[test]
fn master_commits_is_not_reached_by_a_failing_status() {
    assert_eq!(
        accept(response(502, None, "[]")).unwrap_err(),
        FetchError::Transport(TransportFailure::Status(502))
    );
}
