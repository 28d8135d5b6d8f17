//! The `Link` header of a reply: a list of entries `<url>; rel="<relation>"`
//! separated by commas. Only the entry with the relation `next` is read.

use crate::target::{parse_url, parsed_url};
use vstd::prelude::*;
use vstd::string::*;

verus! {

/// Where the page after the current one lies, as far as a `Link` header
/// tells: nowhere, at a place, or at a place that cannot be made out.
#[derive(Debug, PartialEq, Eq)]
pub enum NextPage<T> {
    /// No entry has the relation `next`: the current page is the last.
    Absent,
    /// An entry has the relation `next`, but no usable target. The text
    /// that could not be used comes with it.
    Malformed(T),
    /// The target of the entry with the relation `next`.
    At(T),
}

impl View for NextPage<String> {
    type V = NextPage<Seq<char>>;

    open spec fn view(&self) -> NextPage<Seq<char>> {
        match self {
            NextPage::Absent => NextPage::Absent,
            NextPage::Malformed(text) => NextPage::Malformed(text@),
            NextPage::At(target) => NextPage::At(target@),
        }
    }
}

/// The text `rel="next"`, by which the entry for the next page is known.
pub const NEXT_MARKER: [char; 10] = ['r', 'e', 'l', '=', '"', 'n', 'e', 'x', 't', '"'];

/// The text `rel="`, with which every relation begins.
pub open spec fn relation_opening() -> Seq<char> {
    seq!['r', 'e', 'l', '=', '"']
}

/// Whether `text` stands in `header` from position `at` on.
pub open spec fn stands_at(header: Seq<char>, at: int, text: Seq<char>) -> bool {
    &&& 0 <= at
    &&& at + text.len() <= header.len()
    &&& header.subrange(at, at + text.len()) == text
}

/// Whether `rel="next"` stands in `header` from position `at` on.
pub open spec fn marker_at(header: Seq<char>, at: int) -> bool {
    stands_at(header, at, NEXT_MARKER@)
}

/// For each position of `header`, whether `rel="next"` stands from it on.
pub open spec fn marker_places(header: Seq<char>) -> Seq<bool> {
    Seq::new(header.len(), |at: int| marker_at(header, at))
}

/// The first position of `header` from which `rel="next"` stands, if there
/// is one.
pub open spec fn first_marker(header: Seq<char>) -> Option<int> {
    marker_places(header).index_of_first(true)
}

/// A position from which `rel="next"` stands, and before which it stands
/// nowhere, is the first such position.
pub proof fn lemma_first_marker(header: Seq<char>, at: int)
    requires
        marker_at(header, at),
        forall|before: int| 0 <= before < at ==> !marker_at(header, before),
    ensures
        first_marker(header) == Some(at),
{
    let places = marker_places(header);
    places.index_of_first_ensures(true);
    assert(places[at]);
    let first = places.index_of_first(true)->0;
    assert(places[first]);
}

/// A header in which `rel="next"` stands nowhere has no first position of
/// it.
pub proof fn lemma_no_marker(header: Seq<char>)
    requires
        forall|at: int| !marker_at(header, at),
    ensures
        first_marker(header) is None,
{
    let places = marker_places(header);
    places.index_of_first_ensures(true);
    if places.contains(true) {
        let at = choose|at: int| 0 <= at < places.len() && places[at];
        assert(marker_at(header, at));
    }
}

/// Where the entry that holds position `at` begins: behind the last comma
/// before `at`, or at the start of `header`.
pub open spec fn entry_start(header: Seq<char>, at: int) -> int {
    match header.subrange(0, at).index_of_last(',') {
        Some(comma) => comma + 1,
        None => 0,
    }
}

/// Where the entry that holds position `at` ends: at the first comma from
/// `at` on, or at the end of `header`.
pub open spec fn entry_end(header: Seq<char>, at: int) -> int {
    match header.subrange(at, header.len() as int).index_of_first(',') {
        Some(offset) => at + offset,
        None => header.len() as int,
    }
}

/// The target of an entry: what stands between its first `<` and the first
/// `>` after that, if it has both.
pub open spec fn locator_of(entry: Seq<char>) -> Option<Seq<char>> {
    match entry.index_of_first('<') {
        Some(open) => {
            let rest = entry.subrange(open + 1, entry.len() as int);
            match rest.index_of_first('>') {
                Some(close) => Some(rest.subrange(0, close)),
                None => None,
            }
        },
        None => None,
    }
}

/// What a `Link` header says of the next page. The entry read is the one in
/// which `rel="next"` first stands; its target is handed out as written, and
/// where it has none the entry itself is handed out as malformed.
pub open spec fn scanned(header: Seq<char>) -> NextPage<Seq<char>> {
    match first_marker(header) {
        Some(at) => {
            let entry = header.subrange(entry_start(header, at), entry_end(header, at));
            match locator_of(entry) {
                Some(locator) => NextPage::At(locator),
                None => NextPage::Malformed(entry),
            }
        },
        None => NextPage::Absent,
    }
}

/// The characters of `text`, one by one.
fn chars_of(text: &str) -> (chars: Vec<char>)
    ensures
        chars@ == text@,
{
    let mut chars: Vec<char> = Vec::new();
    for c in it: text.chars()
        invariant
            chars@ == it.seq().take(it.index() as int),
    {
        chars.push(c);
    }
    chars
}

/// Whether `rel="next"` stands in `chars` from position `at` on.
fn marker_starts_at(chars: &Vec<char>, at: usize) -> (found: bool)
    ensures
        found == marker_at(chars@, at as int),
{
    let width: usize = NEXT_MARKER.len();
    if at > chars.len() || chars.len() - at < width {
        return false;
    }
    let mut i: usize = 0;
    while i < width
        invariant
            width == NEXT_MARKER@.len(),
            at + width <= chars.len(),
            i <= width,
            forall|j: int| 0 <= j < i ==> chars@[at + j] == NEXT_MARKER@[j],
        decreases width - i,
    {
        if chars[at + i] != NEXT_MARKER[i] {
            assert(chars@.subrange(at as int, at + width)[i as int] != NEXT_MARKER@[i as int]);
            return false;
        }
        i += 1;
    }
    assert(chars@.subrange(at as int, at + width) =~= NEXT_MARKER@);
    true
}

/// The first position of `chars` from which `rel="next"` stands.
fn find_marker(chars: &Vec<char>) -> (found: Option<usize>)
    ensures
        match found {
            Some(at) => marker_at(chars@, at as int) && first_marker(chars@) == Some(at as int),
            None => first_marker(chars@) is None,
        },
{
    let mut at: usize = 0;
    while at < chars.len()
        invariant
            at <= chars.len(),
            forall|before: int| 0 <= before < at ==> !marker_at(chars@, before),
        decreases chars.len() - at,
    {
        if marker_starts_at(chars, at) {
            proof {
                lemma_first_marker(chars@, at as int);
            }
            return Some(at);
        }
        at += 1;
    }
    proof {
        lemma_no_marker(chars@);
    }
    None
}

/// The first place of `c` in `chars` between `from` and `to`.
fn first_between(chars: &Vec<char>, c: char, from: usize, to: usize) -> (found: Option<usize>)
    requires
        from <= to <= chars.len(),
    ensures
        match found {
            Some(place) => {
                &&& from <= place < to
                &&& chars@.subrange(from as int, to as int).index_of_first(c) == Some(place - from)
            },
            None => chars@.subrange(from as int, to as int).index_of_first(c) is None,
        },
{
    let ghost part = chars@.subrange(from as int, to as int);
    proof {
        part.index_of_first_ensures(c);
    }
    let mut i: usize = from;
    while i < to
        invariant
            from <= i <= to <= chars.len(),
            part == chars@.subrange(from as int, to as int),
            forall|j: int| 0 <= j < i - from ==> part[j] != c,
        decreases to - i,
    {
        if chars[i] == c {
            proof {
                assert(part[i - from] == c);
                part.index_of_first_ensures(c);
            }
            return Some(i);
        }
        i += 1;
    }
    None
}

/// The last place of `c` in `chars` before `to`.
fn last_before(chars: &Vec<char>, c: char, to: usize) -> (found: Option<usize>)
    requires
        to <= chars.len(),
    ensures
        match found {
            Some(place) => {
                &&& place < to
                &&& chars@.subrange(0, to as int).index_of_last(c) == Some(place as int)
            },
            None => chars@.subrange(0, to as int).index_of_last(c) is None,
        },
{
    let ghost part = chars@.subrange(0, to as int);
    proof {
        part.index_of_last_ensures(c);
    }
    let mut i: usize = to;
    while i > 0
        invariant
            i <= to <= chars.len(),
            part == chars@.subrange(0, to as int),
            forall|j: int| i <= j < to ==> part[j] != c,
        decreases i,
    {
        i -= 1;
        if chars[i] == c {
            proof {
                assert(part[i as int] == c);
                part.index_of_last_ensures(c);
            }
            return Some(i);
        }
    }
    None
}

/// The bounds of the entry of `chars` that holds position `at`.
fn entry_bounds(chars: &Vec<char>, at: usize) -> (bounds: (usize, usize))
    requires
        at <= chars.len(),
    ensures
        bounds.0 == entry_start(chars@, at as int),
        bounds.1 == entry_end(chars@, at as int),
        bounds.0 <= at <= bounds.1 <= chars.len(),
{
    let start = match last_before(chars, ',', at) {
        Some(comma) => comma + 1,
        None => 0,
    };
    let end = match first_between(chars, ',', at, chars.len()) {
        Some(comma) => comma,
        None => chars.len(),
    };
    (start, end)
}

/// The bounds of the target of the entry of `chars` between `start` and
/// `end`: the places behind its first `<` and of the first `>` after that.
fn locator_bounds(chars: &Vec<char>, start: usize, end: usize) -> (bounds: Option<(usize, usize)>)
    requires
        start <= end <= chars.len(),
    ensures
        match bounds {
            Some((from, to)) => {
                &&& start < from <= to < end
                &&& locator_of(chars@.subrange(start as int, end as int)) == Some(
                    chars@.subrange(from as int, to as int),
                )
            },
            None => locator_of(chars@.subrange(start as int, end as int)) is None,
        },
{
    let ghost entry = chars@.subrange(start as int, end as int);
    let open = match first_between(chars, '<', start, end) {
        Some(open) => open,
        None => {
            return None;
        },
    };
    let ghost rest = entry.subrange(open - start + 1, entry.len() as int);
    assert(rest =~= chars@.subrange(open + 1, end as int));
    let close = match first_between(chars, '>', open + 1, end) {
        Some(close) => close,
        None => {
            return None;
        },
    };
    assert(rest.subrange(0, close - open - 1) =~= chars@.subrange(open + 1, close as int));
    Some((open + 1, close))
}

/// Reads a `Link` header for the place of the next page.
///
/// The header is a list of entries separated by commas. The entry in which
/// `rel="next"` first stands is the one that counts; an entry for `prev` or
/// `last` is never taken for it. Its target, the text between `<` and `>`,
/// is returned as written. Where that entry has no such target the header is
/// malformed, and the entry is returned with that verdict.
pub fn scan_link_header(header: &str) -> (next: NextPage<String>)
    ensures
        next@ == scanned(header@),
{
    let chars = chars_of(header);
    match find_marker(&chars) {
        Some(at) => {
            let (start, end) = entry_bounds(&chars, at);
            match locator_bounds(&chars, start, end) {
                Some((from, to)) => NextPage::At(header.substring_char(from, to).to_owned()),
                None => NextPage::Malformed(header.substring_char(start, end).to_owned()),
            }
        },
        None => NextPage::Absent,
    }
}

/// What becomes of the target of the entry for the next page once the URL
/// parser has seen it: the URL as the parser writes it, or the target
/// itself as malformed where the parser refused it.
pub open spec fn resolved(locator: Seq<char>, parsed: Option<Seq<char>>) -> NextPage<Seq<char>> {
    match parsed {
        Some(url) => NextPage::At(url),
        None => NextPage::Malformed(locator),
    }
}

/// Where the next page lies, given the `Link` header of a reply or its
/// absence. A reply without the header names no next page. The target that
/// the header gives must be a URL: the parsed URL is handed out in its
/// written form, and a target that does not parse is malformed.
pub open spec fn next_link(header: Option<Seq<char>>) -> NextPage<Seq<char>> {
    match header {
        Some(text) => match scanned(text) {
            NextPage::At(locator) => resolved(locator, parsed_url(locator)),
            other => other,
        },
        None => NextPage::Absent,
    }
}

/// Says where the next page lies, given the target `locator` of the entry
/// for it and what the URL parser made of that target: the parsed URL, or
/// the target as malformed where there is none.
pub fn located(locator: String, parsed: Option<String>) -> (next: NextPage<String>)
    ensures
        next@ == resolved(locator@, parsed.deep_view()),
{
    match parsed {
        Some(url) => NextPage::At(url),
        None => NextPage::Malformed(locator),
    }
}

/// Finds the place of the next page from the `Link` header of a reply.
///
/// The result is `Absent` exactly where there is no header or no entry of
/// it bears `rel="next"`, so that a header of `prev` and `last` entries ends
/// the listing. It is `Malformed` where the entry has no target between `<`
/// and `>`, or one that the URL parser refuses.
pub fn next_page(header: &Option<String>) -> (next: NextPage<String>)
    ensures
        next@ == next_link(header.deep_view()),
{
    match header {
        Some(text) => match scan_link_header(text.as_str()) {
            NextPage::At(locator) => {
                let parsed = parse_url(locator.as_str());
                located(locator, parsed)
            },
            other => other,
        },
        None => NextPage::Absent,
    }
}

/// The text `rel="<name>"`.
pub open spec fn relation(name: Seq<char>) -> Seq<char> {
    relation_opening() + name + seq!['"']
}

/// Whether every relation that `header` states is `prev` or `last`.
pub open spec fn only_prev_and_last(header: Seq<char>) -> bool {
    forall|at: int| #[trigger]
        stands_at(header, at, relation_opening()) ==> stands_at(
            header,
            at,
            relation(seq!['p', 'r', 'e', 'v']),
        ) || stands_at(header, at, relation(seq!['l', 'a', 's', 't']))
}

/// A header whose relations are all `prev` or `last` names no next page.
pub proof fn lemma_prev_and_last_are_not_next(header: Seq<char>)
    requires
        only_prev_and_last(header),
    ensures
        scanned(header) == NextPage::<Seq<char>>::Absent,
        next_link(Some(header)) == NextPage::<Seq<char>>::Absent,
{
    assert forall|at: int| !marker_at(header, at) by {
        if marker_at(header, at) {
            let found = header.subrange(at, at + 10);
            assert(found == NEXT_MARKER@);
            assert(header.subrange(at, at + 5) =~= relation_opening()) by {
                assert forall|i: int| 0 <= i < 5 implies header.subrange(at, at + 5)[i]
                    == relation_opening()[i] by {
                    assert(header.subrange(at, at + 5)[i] == found[i]);
                }
            }
            assert(stands_at(header, at, relation_opening()));
            assert(found[5] == 'n');
            assert(relation(seq!['p', 'r', 'e', 'v'])[5] == 'p');
            assert(relation(seq!['l', 'a', 's', 't'])[5] == 'l');
        }
    }
    lemma_no_marker(header);
}

/// The entry that is read for the next page is a whole entry of the list:
/// it holds all of `rel="next"`, it holds no comma, and it reaches to the
/// comma, or to the end of the header, on either side.
pub proof fn lemma_entry_is_whole(header: Seq<char>, at: int)
    requires
        marker_at(header, at),
    ensures
        0 <= entry_start(header, at) <= at,
        at + NEXT_MARKER@.len() <= entry_end(header, at) <= header.len(),
        forall|i: int|
            entry_start(header, at) <= i < entry_end(header, at) ==> header[i] != ',',
        entry_start(header, at) == 0 || header[entry_start(header, at) - 1] == ',',
        entry_end(header, at) == header.len() || header[entry_end(header, at)] == ',',
{
    let before = header.subrange(0, at);
    let after = header.subrange(at, header.len() as int);
    let marker = header.subrange(at, at + 10);
    before.index_of_last_ensures(',');
    after.index_of_first_ensures(',');
    assert(marker == NEXT_MARKER@);
    assert forall|j: int| 0 <= j < 10 implies after[j] != ',' by {
        assert(after[j] == marker[j]);
    }
    let start = entry_start(header, at);
    let end = entry_end(header, at);
    assert forall|i: int| start <= i < end implies header[i] != ',' by {
        if i < at {
            assert(before[i] == header[i]);
        } else {
            assert(after[i - at] == header[i]);
        }
    }
    if start != 0 {
        assert(before[start - 1] == header[start - 1]);
    }
    if end != header.len() {
        assert(after[end - at] == header[end]);
    }
}

} // verus!
