use rustc_artifacts::link::{located, next_page, scan_link_header, NextPage};

fn at(target: &str) -> NextPage<String> {
    NextPage::At(target.to_string())
}

fn malformed(text: &str) -> NextPage<String> {
    NextPage::Malformed(text.to_string())
}

#[test]
fn scan_finds_the_next_entry() {
    assert_eq!(scan_link_header("<https://x/page2>; rel=\"next\""), at("https://x/page2"));
}

#[test]
fn scan_takes_the_next_entry_among_others() {
    let header = "<https://x/p?page=1>; rel=\"prev\", <https://x/p?page=3>; rel=\"next\", \
                  <https://x/p?page=9>; rel=\"last\", <https://x/p?page=1>; rel=\"first\"";
    assert_eq!(scan_link_header(header), at("https://x/p?page=3"));
}

#[test]
fn scan_ignores_prev_and_last() {
    let header = "<https://x/p?page=1>; rel=\"prev\", <https://x/p?page=9>; rel=\"last\"";
    assert_eq!(scan_link_header(header), NextPage::Absent);
}

#[test]
fn scan_of_an_empty_header_finds_nothing() {
    assert_eq!(scan_link_header(""), NextPage::Absent);
}

#[test]
fn scan_needs_the_whole_marker() {
    assert_eq!(scan_link_header("<https://x/2>; rel=\"nextish\""), NextPage::Absent);
    assert_eq!(scan_link_header("<https://x/2>; rel=next"), NextPage::Absent);
    assert_eq!(scan_link_header("<https://x/2>; rel=\"next"), NextPage::Absent);
    assert_eq!(scan_link_header("<https://x/2>; rel=\"Next\""), NextPage::Absent);
}

#[test]
fn scan_reads_the_first_entry_that_bears_the_marker() {
    let header = "<https://x/a>; rel=\"next\", <https://x/b>; rel=\"next\"";
    assert_eq!(scan_link_header(header), at("https://x/a"));
}

#[test]
fn scan_without_a_target_is_malformed() {
    assert_eq!(scan_link_header("rel=\"next\""), malformed("rel=\"next\""));
    assert_eq!(
        scan_link_header("<https://x/1>; rel=\"prev\", https://x/2; rel=\"next\""),
        malformed(" https://x/2; rel=\"next\"")
    );
    assert_eq!(scan_link_header("<https://x/2; rel=\"next\""), malformed("<https://x/2; rel=\"next\""));
    assert_eq!(scan_link_header("https://x/2>; rel=\"next\""), malformed("https://x/2>; rel=\"next\""));
}

#[test]
fn scan_does_not_look_beyond_the_entry() {
    assert_eq!(
        scan_link_header("<https://x/1>; rel=\"prev\", rel=\"next\", <https://x/3>; rel=\"last\""),
        malformed(" rel=\"next\"")
    );
}

#[test]
fn scan_hands_the_target_out_as_written() {
    assert_eq!(scan_link_header("<not a url>; rel=\"next\""), at("not a url"));
    assert_eq!(scan_link_header("<>; rel=\"next\""), at(""));
    assert_eq!(scan_link_header("rel=\"next\"; <https://x/é?q=1>"), at("https://x/é?q=1"));
}

#[test]
fn next_page_without_a_header_is_absent() {
    assert_eq!(next_page(&None), NextPage::Absent);
}

#[test]
fn next_page_parses_the_target() {
    let header = Some("<https://api.github.com/repositories/724712/commits?per_page=100&page=2>; rel=\"next\", <https://api.github.com/repositories/724712/commits?per_page=100&page=7>; rel=\"last\"".to_string());
    assert_eq!(
        next_page(&header),
        at("https://api.github.com/repositories/724712/commits?per_page=100&page=2")
    );
}

#[test]
fn next_page_hands_out_the_url_as_the_parser_writes_it() {
    let header = Some("<HTTPS://Example.COM/a/../b?page=2>; rel=\"next\"".to_string());
    assert_eq!(next_page(&header), at("https://example.com/b?page=2"));
    let header = Some("<https://x/page2>; rel=\"next\"".to_string());
    assert_eq!(next_page(&header), at("https://x/page2"));
}

#[test]
fn next_page_with_a_target_that_is_no_url_is_malformed() {
    let header = Some("<not a url>; rel=\"next\"".to_string());
    assert_eq!(next_page(&header), malformed("not a url"));
    let header = Some("</relative/path?page=2>; rel=\"next\"".to_string());
    assert_eq!(next_page(&header), malformed("/relative/path?page=2"));
    let header = Some("<>; rel=\"next\"".to_string());
    assert_eq!(next_page(&header), malformed(""));
}

#[test]
fn next_page_with_prev_and_last_only_is_absent() {
    let header = Some("<https://x/p?page=1>; rel=\"prev\", <https://x/p?page=9>; rel=\"last\"".to_string());
    assert_eq!(next_page(&header), NextPage::Absent);
}

#[test]
fn located_takes_the_parsed_url() {
    assert_eq!(
        located("HTTPS://X/page2".to_string(), Some("https://x/page2".to_string())),
        at("https://x/page2")
    );
}

#[test]
fn located_without_a_parsed_url_is_malformed() {
    assert_eq!(located("not a url".to_string(), None), malformed("not a url"));
    assert_eq!(located(String::new(), None), malformed(""));
}
