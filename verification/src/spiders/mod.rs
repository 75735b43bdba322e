//! Spiders: what is read off a page, and how the results of the subroutes of
//! one site are put together.

pub mod infinite_scrolling;
pub mod metro;
pub mod multipage;
pub mod price;

pub use infinite_scrolling::{InfiniteScrollingItem, InfiniteScrollingSpider, ScrollPoller};
pub use metro::{MetroItem, MetroSpider};
pub use multipage::{add_to_map, MultipageItem, MultipageSpider, ShowcaseChildren};
pub use price::{parse_price, Price};

use vstd::prelude::*;

verus! {

/// How long to wait for the first product node of a page, in seconds.
pub const ELEMENT_TIMEOUT_SECS: u64 = 5;

/// What can go wrong while one site is scraped.
#[derive(Debug)]
pub enum SpiderError {
    /// The CSS selector of a spider cannot be parsed.
    InvalidSelector(String),
    /// A node carries an identity key and nothing else.
    NoDataExtracted(String),
    /// A node carries no identity key.
    MissingIdentity,
    /// A price field holds no decimal number.
    PriceParseError(String),
    /// A page could not be reached or read.
    NavigationError(String),
    /// No matching node appeared in time.
    TimeoutError(String),
    /// The rendering session could not be set up.
    SessionError(String),
    UnexpectedError(String),
}

/// A `SpiderError` with the characters of its text.
pub enum SpiderErrorView {
    InvalidSelector(Seq<char>),
    NoDataExtracted(Seq<char>),
    MissingIdentity,
    PriceParseError(Seq<char>),
    NavigationError(Seq<char>),
    TimeoutError(Seq<char>),
    SessionError(Seq<char>),
    UnexpectedError(Seq<char>),
}

impl View for SpiderError {
    type V = SpiderErrorView;

    open spec fn view(&self) -> SpiderErrorView {
        match self {
            SpiderError::InvalidSelector(s) => SpiderErrorView::InvalidSelector(s@),
            SpiderError::NoDataExtracted(s) => SpiderErrorView::NoDataExtracted(s@),
            SpiderError::MissingIdentity => SpiderErrorView::MissingIdentity,
            SpiderError::PriceParseError(s) => SpiderErrorView::PriceParseError(s@),
            SpiderError::NavigationError(s) => SpiderErrorView::NavigationError(s@),
            SpiderError::TimeoutError(s) => SpiderErrorView::TimeoutError(s@),
            SpiderError::SessionError(s) => SpiderErrorView::SessionError(s@),
            SpiderError::UnexpectedError(s) => SpiderErrorView::UnexpectedError(s@),
        }
    }
}

/// What an error says of itself.
pub open spec fn error_text(e: SpiderErrorView) -> Seq<char> {
    match e {
        SpiderErrorView::InvalidSelector(s) => "Invalid selector: "@ + s,
        SpiderErrorView::NoDataExtracted(s) => "No data found to be extracted: "@ + s,
        SpiderErrorView::MissingIdentity => "No identity key found."@,
        SpiderErrorView::PriceParseError(s) => "Failed to parse price from: "@ + s,
        SpiderErrorView::NavigationError(s) => "Failed to read page: "@ + s,
        SpiderErrorView::TimeoutError(s) => "Failed to wait for element: "@ + s,
        SpiderErrorView::SessionError(s) => "Error connecting to webdriver: "@ + s,
        SpiderErrorView::UnexpectedError(_) => "Something went wrong."@,
    }
}

fn with_detail(head: &str, detail: &str) -> (r: String)
    ensures
        r@ == head@ + detail@,
{
    let mut out = String::from_str(head);
    out.append(detail);
    out
}

impl SpiderError {
    /// The error in words.
    pub fn message(&self) -> (r: String)
        ensures
            r@ == error_text(self@),
    {
        match self {
            SpiderError::InvalidSelector(s) => with_detail("Invalid selector: ", s.as_str()),
            SpiderError::NoDataExtracted(s) => with_detail(
                "No data found to be extracted: ",
                s.as_str(),
            ),
            SpiderError::MissingIdentity => String::from_str("No identity key found."),
            SpiderError::PriceParseError(s) => with_detail(
                "Failed to parse price from: ",
                s.as_str(),
            ),
            SpiderError::NavigationError(s) => with_detail("Failed to read page: ", s.as_str()),
            SpiderError::TimeoutError(s) => with_detail("Failed to wait for element: ", s.as_str()),
            SpiderError::SessionError(s) => with_detail(
                "Error connecting to webdriver: ",
                s.as_str(),
            ),
            SpiderError::UnexpectedError(_) => String::from_str("Something went wrong."),
        }
    }
}

/// The value of `key` in `m`, if it has one.
pub open spec fn lookup(m: Map<Seq<char>, Seq<char>>, key: Seq<char>) -> Option<Seq<char>> {
    if m.contains_key(key) {
        Some(m[key])
    } else {
        None
    }
}

/// The characters of an optional string.
pub open spec fn text_of(o: Option<String>) -> Option<Seq<char>> {
    match o {
        Some(s) => Some(s@),
        None => None,
    }
}

/// The price that an optional raw text spells, where it spells one.
pub open spec fn price_in(o: Option<Seq<char>>) -> Option<Price> {
    match o {
        Some(t) => price::price_of(price::price_text(t)),
        None => None,
    }
}

/// A scraped observation that is told apart from others by its identity
/// key alone.
pub trait Record: Sized {
    /// The identity key.
    spec fn identity(&self) -> Seq<char>;

    /// Whether two records stand for the same entity.
    fn same_identity(&self, other: &Self) -> (b: bool)
        ensures
            b == (self.identity() == other.identity()),
    ;
}

/// The identity key as a function of the record.
pub open spec fn identity_of<T: Record>() -> spec_fn(T) -> Seq<char> {
    |t: T| t.identity()
}

/// Whether some element of `s` has the key `id`.
pub open spec fn has_key<T>(s: Seq<T>, key: spec_fn(T) -> Seq<char>, id: Seq<char>) -> bool {
    exists|i: int| 0 <= i < s.len() && key(#[trigger] s[i]) == id
}

/// Whether no two elements of `s` share a key.
pub open spec fn distinct_by<T>(s: Seq<T>, key: spec_fn(T) -> Seq<char>) -> bool {
    forall|i: int, j: int| 0 <= i < j < s.len() ==> key(#[trigger] s[i]) != key(#[trigger] s[j])
}

/// The elements of `s` in order, each key kept where it first occurs and
/// dropped where it occurs again.
pub open spec fn first_by<T>(s: Seq<T>, key: spec_fn(T) -> Seq<char>) -> Seq<T>
    decreases s.len(),
{
    if s.len() == 0 {
        Seq::empty()
    } else {
        let kept = first_by(s.drop_last(), key);
        if has_key(kept, key, key(s.last())) {
            kept
        } else {
            kept.push(s.last())
        }
    }
}

/// Whether no two records of `s` share an identity key.
pub open spec fn distinct_identities<T: Record>(s: Seq<T>) -> bool {
    distinct_by(s, identity_of::<T>())
}

/// The records of `s` in order, each identity key kept where it first
/// occurs and dropped where it occurs again.
pub open spec fn first_of_each<T: Record>(s: Seq<T>) -> Seq<T> {
    first_by(s, identity_of::<T>())
}

/// Deduplication leaves no key twice, keeps only elements that were given,
/// and loses no key.
pub proof fn lemma_first_by<T>(s: Seq<T>, key: spec_fn(T) -> Seq<char>)
    ensures
        distinct_by(first_by(s, key), key),
        first_by(s, key).len() <= s.len(),
        forall|i: int| 0 <= i < first_by(s, key).len() ==> s.contains(#[trigger] first_by(s, key)[i]),
        forall|i: int| 0 <= i < s.len() ==> has_key(first_by(s, key), key, key(#[trigger] s[i])),
    decreases s.len(),
{
    if s.len() > 0 {
        let front = s.drop_last();
        let kept = first_by(front, key);
        lemma_first_by(front, key);
        let out = first_by(s, key);
        assert forall|i: int| 0 <= i < out.len() implies s.contains(#[trigger] out[i]) by {
            if i < kept.len() {
                assert(front.contains(kept[i]));
                let j = choose|j: int| 0 <= j < front.len() && front[j] == kept[i];
                assert(s[j] == kept[i]);
            } else {
                assert(out[i] == s[s.len() - 1]);
            }
        }
        assert forall|i: int| 0 <= i < s.len() implies has_key(out, key, key(#[trigger] s[i])) by {
            if i < front.len() {
                assert(front[i] == s[i]);
                assert(has_key(kept, key, key(front[i])));
                let j = choose|j: int| 0 <= j < kept.len() && key(kept[j]) == key(s[i]);
                assert(out[j] == kept[j]);
            } else {
                if has_key(kept, key, key(s.last())) {
                } else {
                    assert(out[out.len() - 1] == s.last());
                }
            }
        }
    }
}

/// No two records that deduplication leaves share an identity key; each
/// of them was given, and each identity key that was given is still there.
pub proof fn lemma_first_of_each<T: Record>(s: Seq<T>)
    ensures
        distinct_identities(first_of_each(s)),
        forall|i: int, j: int|
            0 <= i < j < first_of_each(s).len() ==> (#[trigger] first_of_each(s)[i]).identity() != (
            #[trigger] first_of_each(s)[j]).identity(),
        first_of_each(s).len() <= s.len(),
        forall|i: int|
            0 <= i < first_of_each(s).len() ==> s.contains(#[trigger] first_of_each(s)[i]),
        forall|i: int|
            0 <= i < s.len() ==> has_key(
                first_of_each(s),
                identity_of::<T>(),
                (#[trigger] s[i]).identity(),
            ),
{
    lemma_first_by(s, identity_of::<T>());
}

/// Deduplication goes through a mapping of the elements that keeps their
/// keys: mapping what is left is the same as deduplicating what was mapped.
pub proof fn lemma_first_by_map<T, V>(
    s: Seq<T>,
    f: spec_fn(T) -> V,
    key: spec_fn(T) -> Seq<char>,
    key_after: spec_fn(V) -> Seq<char>,
)
    requires
        forall|t: T| key_after(#[trigger] f(t)) == key(t),
    ensures
        first_by(s, key).map_values(f) == first_by(s.map_values(f), key_after),
    decreases s.len(),
{
    if s.len() > 0 {
        let front = s.drop_last();
        lemma_first_by_map(front, f, key, key_after);
        assert(s.map_values(f).drop_last() == front.map_values(f));
        let kept = first_by(front, key);
        let kept_after = first_by(front.map_values(f), key_after);
        let id = key(s.last());
        assert(s.map_values(f).last() == f(s.last()));
        if has_key(kept, key, id) {
            let i = choose|i: int| 0 <= i < kept.len() && key(kept[i]) == id;
            assert(kept_after[i] == f(kept[i]));
            assert(has_key(kept_after, key_after, id));
        } else {
            if has_key(kept_after, key_after, id) {
                let i = choose|i: int| 0 <= i < kept_after.len() && key_after(kept_after[i]) == id;
                assert(kept_after[i] == f(kept[i]));
                assert(key(kept[i]) == id);
            }
            assert(kept.push(s.last()).map_values(f) == kept_after.push(f(s.last())));
        }
    } else {
        assert(s.map_values(f) == Seq::<V>::empty());
        assert(first_by(s, key).map_values(f) == Seq::<V>::empty());
    }
}

/// Whether a record with the identity key of `item` is among `seen`.
fn is_known<T: Record>(seen: &Vec<T>, item: &T) -> (b: bool)
    ensures
        b == has_key(seen@, identity_of::<T>(), item.identity()),
{
    let mut i: usize = 0;
    while i < seen.len()
        invariant
            i <= seen.len(),
            forall|j: int| 0 <= j < i ==> (#[trigger] seen@[j]).identity() != item.identity(),
        decreases seen.len() - i,
    {
        if seen[i].same_identity(item) {
            return true;
        }
        i += 1;
    }
    false
}

/// Drops every record whose identity key occurred before it. What is left
/// holds no identity key twice, and each key that was given once.
pub fn dedup<T: Record>(items: Vec<T>) -> (r: Vec<T>)
    ensures
        r@ == first_of_each(items@),
        distinct_identities(r@),
{
    let ghost given = items@;
    let mut items = items;
    let mut stack: Vec<T> = Vec::new();
    while items.len() > 0
        invariant
            items@.len() + stack@.len() == given.len(),
            forall|j: int| 0 <= j < items@.len() ==> items@[j] == given[j],
            forall|j: int| 0 <= j < stack@.len() ==> stack@[j] == given[given.len() - 1 - j],
        decreases items.len(),
    {
        let x = items.pop().unwrap();
        stack.push(x);
    }
    let mut out: Vec<T> = Vec::new();
    assert(given.subrange(0, 0) == Seq::<T>::empty());
    while stack.len() > 0
        invariant
            stack@.len() <= given.len(),
            forall|j: int| 0 <= j < stack@.len() ==> stack@[j] == given[given.len() - 1 - j],
            out@ == first_of_each(given.subrange(0, given.len() - stack@.len())),
        decreases stack.len(),
    {
        let ghost i = given.len() - stack@.len();
        let x = stack.pop().unwrap();
        assert(x == given[i]);
        assert(given.subrange(0, i + 1).drop_last() == given.subrange(0, i));
        assert(given.subrange(0, i + 1).last() == given[i]);
        if !is_known(&out, &x) {
            out.push(x);
        }
    }
    assert(given.subrange(0, given.len() as int) == given);
    proof {
        lemma_first_of_each(given);
    }
    out
}

/// The records of the successful results among the first `k`, one result
/// after the other; a failed result adds nothing.
pub open spec fn gathered<T>(results: Seq<Result<Vec<T>, SpiderError>>, k: int) -> Seq<T>
    decreases k,
{
    if k <= 0 {
        Seq::empty()
    } else {
        match results[k - 1] {
            Ok(items) => gathered(results, k - 1) + items@,
            Err(_) => gathered(results, k - 1),
        }
    }
}

/// Puts the results of the subroutes of one site together: the records of
/// every subroute that succeeded, without those whose identity key came
/// before. A subroute that failed adds nothing and takes nothing away.
pub fn scrape_all<T: Record>(results: Vec<Result<Vec<T>, SpiderError>>) -> (r: Vec<T>)
    ensures
        r@ == first_of_each(gathered(results@, results@.len() as int)),
        distinct_identities(r@),
{
    let ghost given = results@;
    let mut all: Vec<T> = Vec::new();
    for result in it: results
        invariant
            it.seq() == given,
            all@ == gathered(given, it.index() as int),
    {
        match result {
            Ok(items) => {
                let mut items = items;
                all.append(&mut items);
            },
            Err(_) => {},
        }
    }
    dedup(all)
}

proof fn lemma_gathered_prefix<T>(
    a: Seq<Result<Vec<T>, SpiderError>>,
    b: Seq<Result<Vec<T>, SpiderError>>,
    k: int,
)
    requires
        0 <= k <= a.len(),
        k <= b.len(),
        forall|j: int| 0 <= j < k ==> a[j] == b[j],
    ensures
        gathered(a, k) == gathered(b, k),
    decreases k,
{
    if k > 0 {
        lemma_gathered_prefix(a, b, k - 1);
    }
}

/// A failed subroute changes nothing: the records gathered with it are
/// those gathered without it.
pub proof fn lemma_failed_subroute_adds_nothing<T>(
    results: Seq<Result<Vec<T>, SpiderError>>,
    failed: int,
)
    requires
        0 <= failed < results.len(),
        results[failed] is Err,
    ensures
        gathered(results, results.len() as int) == gathered(
            results.remove(failed),
            results.len() - 1,
        ),
    decreases results.len(),
{
    let n = results.len() as int;
    let rest = results.remove(failed);
    if failed == n - 1 {
        lemma_gathered_prefix(results, rest, n - 1);
    } else {
        let front = results.drop_last();
        lemma_failed_subroute_adds_nothing(front, failed);
        assert(front.remove(failed) == rest.drop_last());
        lemma_gathered_prefix(results, front, n - 1);
        lemma_gathered_prefix(rest, rest.drop_last(), n - 2);
        assert(rest[n - 2] == results[n - 1]);
    }
}

/// One page to fetch: its address, and how long to wait before asking.
#[derive(Debug)]
pub struct SubrouteRequest {
    pub url: String,
    pub delay_milis: u64,
}

/// The address of a subroute: the base address, a slash, the subroute.
pub open spec fn subroute_address(base_url: Seq<char>, subroute: Seq<char>) -> Seq<char> {
    base_url + seq!['/'] + subroute
}

/// The address of one subroute of a site.
pub fn subroute_url(base_url: &str, subroute: &str) -> (r: String)
    ensures
        r@ == subroute_address(base_url@, subroute@),
{
    let mut url = String::from_str(base_url);
    crate::text::push_char(&mut url, '/');
    url.append(subroute);
    url
}

/// The pages of one site in the order of its subroutes. The first is
/// asked for at once, each later one after the delay.
pub fn subroute_requests(base_url: &str, subroutes: &[String], delay_milis: u64) -> (r: Vec<
    SubrouteRequest,
>)
    ensures
        r@.len() == subroutes@.len(),
        forall|i: int|
            0 <= i < r@.len() ==> (#[trigger] r@[i]).url@ == subroute_address(
                base_url@,
                subroutes@[i]@,
            ),
        forall|i: int|
            0 <= i < r@.len() ==> (#[trigger] r@[i]).delay_milis == if i == 0 {
                0
            } else {
                delay_milis
            },
{
    let mut out: Vec<SubrouteRequest> = Vec::new();
    let mut i: usize = 0;
    while i < subroutes.len()
        invariant
            i <= subroutes@.len(),
            out@.len() == i,
            forall|j: int|
                0 <= j < i ==> (#[trigger] out@[j]).url@ == subroute_address(
                    base_url@,
                    subroutes@[j]@,
                ),
            forall|j: int|
                0 <= j < i ==> (#[trigger] out@[j]).delay_milis == if j == 0 {
                    0
                } else {
                    delay_milis
                },
        decreases subroutes@.len() - i,
    {
        let url = subroute_url(base_url, subroutes[i].as_str());
        let wait: u64 = if i == 0 {
            0
        } else {
            delay_milis
        };
        out.push(SubrouteRequest { url, delay_milis: wait });
        i += 1;
    }
    out
}

/// The characters of each text.
pub open spec fn texts_of(s: Seq<String>) -> Seq<Seq<char>> {
    s.map_values(|t: String| t@)
}

/// One site to crawl: a base address, the subroutes below it, the delay
/// to keep between them, and the rule that reads records off a page.
pub trait Spider {
    type Item: Record;

    /// The name of the site.
    spec fn site_name(&self) -> Seq<char>;

    /// The base address.
    spec fn base_address(&self) -> Seq<char>;

    /// The subroutes, in the order in which they are asked for.
    spec fn subroute_texts(&self) -> Seq<Seq<char>>;

    /// The delay between two subroutes, in milliseconds.
    spec fn delay_between(&self) -> u64;

    fn name(&self) -> (r: &str)
        ensures
            r@ == self.site_name(),
    ;

    fn base_url(&self) -> (r: &str)
        ensures
            r@ == self.base_address(),
    ;

    fn subroutes(&self) -> (r: &[String])
        ensures
            texts_of(r@) == self.subroute_texts(),
    ;

    /// Delay to scrap between subroutes, in milliseconds.
    fn delay(&self) -> (r: u64)
        ensures
            r == self.delay_between(),
    ;

    /// The records of the page at `url`, read off its markup. No two of
    /// them share an identity key.
    fn scrape_document(&self, document: &str, url: &str) -> (r: Vec<Self::Item>)
        ensures
            distinct_identities(r@),
    ;
}

/// The pages of a site to fetch, in the order of its subroutes: the
/// first at once, each later one after the delay of the site.
pub fn requests_of<S: Spider>(spider: &S) -> (r: Vec<SubrouteRequest>)
    ensures
        r@.len() == spider.subroute_texts().len(),
        forall|i: int|
            0 <= i < r@.len() ==> (#[trigger] r@[i]).url@ == subroute_address(
                spider.base_address(),
                spider.subroute_texts()[i],
            ),
        forall|i: int|
            0 <= i < r@.len() ==> (#[trigger] r@[i]).delay_milis == if i == 0 {
                0
            } else {
                spider.delay_between()
            },
{
    subroute_requests(spider.base_url(), spider.subroutes(), spider.delay())
}

} // verus!
