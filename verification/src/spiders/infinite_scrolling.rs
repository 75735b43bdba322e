//! Sites whose pages load their content while the reader scrolls.

use crate::attributes::{lemma_absent_below, lemma_last_wins, pairs_map, AttributeMap};
use crate::configuration::{InfiniteScrollingSpiderSettings, Settings};
use crate::markup::{select_nodes, selected_nodes, selector_is_valid, selector_parses};
use crate::spiders::{
    dedup, distinct_identities, first_by, identity_of, lemma_first_by_map, lookup, parse_price,
    price_in, subroute_address, subroute_requests, text_of, texts_of, Price, Record, Spider,
    SpiderError, SpiderErrorView, SubrouteRequest,
};
use crate::text::{decimal_digits, push_decimal};
use vstd::prelude::*;

verus! {

/// One product as a scrolling page shows it.
#[derive(Debug)]
pub struct InfiniteScrollingItem {
    pub id: String,
    pub brand: Option<String>,
    pub uri: Option<String>,
    pub name: Option<String>,
    pub price: Option<Price>,
    pub category: Option<String>,
}

/// An `InfiniteScrollingItem` with the characters of its fields.
pub struct InfiniteScrollingItemView {
    pub id: Seq<char>,
    pub brand: Option<Seq<char>>,
    pub uri: Option<Seq<char>>,
    pub name: Option<Seq<char>>,
    pub price: Option<Price>,
    pub category: Option<Seq<char>>,
}

impl View for InfiniteScrollingItem {
    type V = InfiniteScrollingItemView;

    open spec fn view(&self) -> InfiniteScrollingItemView {
        InfiniteScrollingItemView {
            id: self.id@,
            brand: text_of(self.brand),
            uri: text_of(self.uri),
            name: text_of(self.name),
            price: self.price,
            category: text_of(self.category),
        }
    }
}

impl Record for InfiniteScrollingItem {
    open spec fn identity(&self) -> Seq<char> {
        self.id@
    }

    fn same_identity(&self, other: &Self) -> (b: bool) {
        self.id == other.id
    }
}

/// What the attributes `m` of one node give: the item, or the reason why
/// the node is none. The identity key is looked at first, then the price,
/// then whether anything besides the key is there.
pub open spec fn scrolling_item_of(m: Map<Seq<char>, Seq<char>>) -> Result<
    InfiniteScrollingItemView,
    SpiderErrorView,
> {
    let price = lookup(m, "data-price"@);
    if !m.contains_key("data-id"@) {
        Err(SpiderErrorView::MissingIdentity)
    } else if price is Some && price_in(price) is None {
        Err(SpiderErrorView::PriceParseError(price->0))
    } else if !m.contains_key("data-brand"@) && !m.contains_key("data-uri"@) && !m.contains_key(
        "data-name"@,
    ) && price is None && !m.contains_key("data-category"@) {
        Err(SpiderErrorView::NoDataExtracted(m["data-id"@]))
    } else {
        Ok(
            InfiniteScrollingItemView {
                id: m["data-id"@],
                brand: lookup(m, "data-brand"@),
                uri: lookup(m, "data-uri"@),
                name: lookup(m, "data-name"@),
                price: price_in(price),
                category: lookup(m, "data-category"@),
            },
        )
    }
}

/// The result of an extraction with the characters of its texts.
pub open spec fn scrolling_result_view(r: Result<InfiniteScrollingItem, SpiderError>) -> Result<
    InfiniteScrollingItemView,
    SpiderErrorView,
> {
    match r {
        Ok(item) => Ok(item@),
        Err(e) => Err(e@),
    }
}

impl InfiniteScrollingItem {
    /// Builds the item of one node from its attributes.
    pub fn try_from(map: AttributeMap) -> (r: Result<InfiniteScrollingItem, SpiderError>)
        ensures
            scrolling_result_view(r) == scrolling_item_of(map@),
    {
        let id = match map.get_owned("data-id") {
            Some(id) => id,
            None => {
                return Err(SpiderError::MissingIdentity);
            },
        };
        let brand = map.get_owned("data-brand");
        let uri = map.get_owned("data-uri");
        let name = map.get_owned("data-name");
        let price = match map.get("data-price") {
            Some(raw) => match parse_price(raw.as_str()) {
                Ok(p) => Some(p),
                Err(e) => {
                    return Err(e);
                },
            },
            None => None,
        };
        let category = map.get_owned("data-category");
        if brand.is_none() && uri.is_none() && name.is_none() && price.is_none()
            && category.is_none() {
            Err(SpiderError::NoDataExtracted(id))
        } else {
            Ok(InfiniteScrollingItem { id, brand, uri, name, price, category })
        }
    }
}

/// The items that the first `k` of the nodes give, in order; a node
/// that gives none is passed over.
pub open spec fn scrolling_items_in(
    nodes: Seq<Seq<(Seq<char>, Seq<char>)>>,
    k: int,
) -> Seq<InfiniteScrollingItemView>
    decreases k,
{
    if k <= 0 {
        Seq::empty()
    } else {
        let before = scrolling_items_in(nodes, k - 1);
        match scrolling_item_of(pairs_map(nodes[k - 1], nodes[k - 1].len() as int)) {
            Ok(item) => before.push(item),
            Err(_) => before,
        }
    }
}

/// The records of a page whose matching nodes are `nodes`: one for each
/// node that gives an item, without those whose identity key came before.
pub open spec fn scrolling_records(nodes: Seq<Seq<(Seq<char>, Seq<char>)>>) -> Seq<
    InfiniteScrollingItemView,
> {
    first_by(
        scrolling_items_in(nodes, nodes.len() as int),
        |v: InfiniteScrollingItemView| v.id,
    )
}

impl InfiniteScrollingItem {
    /// Builds the records of one page from the attributes of its matching
    /// nodes. A node that gives no item is passed over; of the items that
    /// share an identity key the first stays.
    pub fn from_nodes(nodes: &Vec<Vec<(String, String)>>) -> (r: Vec<InfiniteScrollingItem>)
        ensures
            r@.map_values(|i: InfiniteScrollingItem| i@) == scrolling_records(nodes.deep_view()),
            distinct_identities(r@),
    {
        let mut found: Vec<InfiniteScrollingItem> = Vec::new();
        let mut k: usize = 0;
        while k < nodes.len()
            invariant
                k <= nodes@.len(),
                found@.map_values(|i: InfiniteScrollingItem| i@) == scrolling_items_in(
                    nodes.deep_view(),
                    k as int,
                ),
            decreases nodes@.len() - k,
        {
            let map = AttributeMap::from_pairs(&nodes[k]);
            assert(nodes.deep_view()[k as int] == nodes@[k as int].deep_view());
            let ghost before = found@;
            match InfiniteScrollingItem::try_from(map) {
                Ok(item) => {
                    found.push(item);
                    assert(found@.map_values(|i: InfiniteScrollingItem| i@) == before.map_values(
                        |i: InfiniteScrollingItem| i@,
                    ).push(item@));
                },
                Err(_) => {},
            }
            k += 1;
        }
        let ghost all = found@;
        let out = dedup(found);
        proof {
            lemma_first_by_map(
                all,
                |i: InfiniteScrollingItem| i@,
                identity_of::<InfiniteScrollingItem>(),
                |v: InfiniteScrollingItemView| v.id,
            );
        }
        out
    }
}

/// On a page, a node whose attributes are its identity key and nothing
/// else adds no item.
pub proof fn lemma_scrolling_bare_node_adds_nothing(nodes: Seq<Seq<(Seq<char>, Seq<char>)>>, k: int)
    requires
        0 <= k < nodes.len(),
        nodes[k].len() > 0,
        forall|i: int| 0 <= i < nodes[k].len() ==> (#[trigger] nodes[k][i]).0 == "data-id"@,
    ensures
        scrolling_items_in(nodes, k + 1) == scrolling_items_in(nodes, k),
{
    let node = nodes[k];
    let n = node.len() as int;
    let m = pairs_map(node, n);
    reveal_strlit("data-id");
    reveal_strlit("data-brand");
    reveal_strlit("data-uri");
    reveal_strlit("data-name");
    reveal_strlit("data-price");
    reveal_strlit("data-category");
    assert("data-brand"@.len() != "data-id"@.len());
    assert("data-uri"@.len() != "data-id"@.len());
    assert("data-name"@.len() != "data-id"@.len());
    assert("data-price"@.len() != "data-id"@.len());
    assert("data-category"@.len() != "data-id"@.len());
    lemma_last_wins(node, n - 1, n, "data-id"@);
    lemma_absent_below(node, n, "data-brand"@);
    lemma_absent_below(node, n, "data-uri"@);
    lemma_absent_below(node, n, "data-name"@);
    lemma_absent_below(node, n, "data-price"@);
    lemma_absent_below(node, n, "data-category"@);
    lemma_scrolling_no_field_is_no_item(m);
}

/// A node without an identity key gives `MissingIdentity`, whatever else
/// it carries.
pub proof fn lemma_scrolling_missing_identity(m: Map<Seq<char>, Seq<char>>)
    requires
        !m.contains_key("data-id"@),
    ensures
        scrolling_item_of(m) == Err::<InfiniteScrollingItemView, SpiderErrorView>(
            SpiderErrorView::MissingIdentity,
        ),
{
}

/// A node that carries its identity key and none of the descriptive
/// fields gives no item, whatever other attributes it has.
pub proof fn lemma_scrolling_no_field_is_no_item(m: Map<Seq<char>, Seq<char>>)
    requires
        m.contains_key("data-id"@),
        !m.contains_key("data-brand"@),
        !m.contains_key("data-uri"@),
        !m.contains_key("data-name"@),
        !m.contains_key("data-price"@),
        !m.contains_key("data-category"@),
    ensures
        scrolling_item_of(m) == Err::<InfiniteScrollingItemView, SpiderErrorView>(
            SpiderErrorView::NoDataExtracted(m["data-id"@]),
        ),
{
}

/// A node that carries its identity key and nothing else gives no item.
pub proof fn lemma_scrolling_identity_alone(m: Map<Seq<char>, Seq<char>>)
    requires
        m.contains_key("data-id"@),
        forall|k: Seq<char>| m.contains_key(k) ==> k == "data-id"@,
    ensures
        scrolling_item_of(m) == Err::<InfiniteScrollingItemView, SpiderErrorView>(
            SpiderErrorView::NoDataExtracted(m["data-id"@]),
        ),
{
    reveal_strlit("data-id");
    reveal_strlit("data-brand");
    reveal_strlit("data-uri");
    reveal_strlit("data-name");
    reveal_strlit("data-price");
    reveal_strlit("data-category");
    assert("data-brand"@.len() != "data-id"@.len());
    assert("data-uri"@.len() != "data-id"@.len());
    assert("data-name"@.len() != "data-id"@.len());
    assert("data-price"@.len() != "data-id"@.len());
    assert("data-category"@.len() != "data-id"@.len());
}

/// The height that reading `k` is held against: the one read before
/// it, or the height at the start.
pub open spec fn height_before(initial: int, readings: Seq<int>, k: int) -> int {
    if k <= 0 {
        initial
    } else {
        readings[k - 1]
    }
}

/// After `k` readings, how many of the latest in a row found the height
/// unchanged. A reading that differs starts the count again.
pub open spec fn stable_count(initial: int, readings: Seq<int>, k: int) -> nat
    decreases k,
{
    if k <= 0 {
        0
    } else if readings[k - 1] == height_before(initial, readings, k - 1) {
        stable_count(initial, readings, k - 1) + 1
    } else {
        0
    }
}

/// The heights as integers.
pub open spec fn heights(readings: Seq<i64>) -> Seq<int> {
    readings.map_values(|h: i64| h as int)
}

/// Where the count stands after `k` readings, each of the latest
/// `stable_count` readings found the height that was there before it.
pub proof fn lemma_stable_run_is_flat(initial: int, readings: Seq<int>, k: int)
    requires
        0 <= k <= readings.len(),
    ensures
        stable_count(initial, readings, k) <= k,
        forall|j: int|
            k - stable_count(initial, readings, k) <= j < k ==> #[trigger] readings[j]
                == height_before(initial, readings, j),
    decreases k,
{
    if k > 0 {
        lemma_stable_run_is_flat(initial, readings, k - 1);
    }
}

/// A page whose height differs at every reading never counts as loaded
/// where at least one unchanged reading is asked for.
pub proof fn lemma_growing_page_never_settles(initial: int, readings: Seq<int>, k: int)
    requires
        0 <= k <= readings.len(),
        forall|j: int|
            0 <= j < readings.len() ==> #[trigger] readings[j] != height_before(
                initial,
                readings,
                j,
            ),
    ensures
        stable_count(initial, readings, k) == 0,
{
}

/// Detects that a page which grows while it is scrolled has stopped
/// growing: the height has to be found unchanged a set number of times in
/// a row.
#[derive(Debug)]
pub struct ScrollPoller {
    height: i64,
    stable: usize,
    checks: usize,
}

impl ScrollPoller {
    /// The height last read.
    pub closed spec fn height(&self) -> int {
        self.height as int
    }

    /// How many of the latest readings in a row found the height unchanged.
    pub closed spec fn stable(&self) -> nat {
        self.stable as nat
    }

    /// How many unchanged readings in a row are asked for.
    pub closed spec fn checks(&self) -> nat {
        self.checks as nat
    }

    /// A poller at the start: the height of the page before any scroll, and
    /// no unchanged reading yet.
    pub fn new(height: i64, scroll_checks: usize) -> (r: ScrollPoller)
        ensures
            r.height() == height,
            r.stable() == 0,
            r.checks() == scroll_checks,
    {
        ScrollPoller { height, stable: 0, checks: scroll_checks }
    }

    /// The height last read.
    pub fn last_height(&self) -> (r: i64)
        ensures
            r == self.height(),
    {
        self.height
    }

    /// How many of the latest readings in a row found the height unchanged.
    pub fn stable_readings(&self) -> (r: usize)
        ensures
            r == self.stable(),
    {
        self.stable
    }

    /// Whether as many unchanged readings in a row were seen as are asked
    /// for.
    pub fn is_settled(&self) -> (r: bool)
        ensures
            r == (self.stable() >= self.checks()),
    {
        self.stable >= self.checks
    }

    /// Takes the height read after one more scroll, and says whether to
    /// stop scrolling. An unchanged height counts one more, up to the
    /// largest number that fits; a changed one starts the count again.
    pub fn observe(&mut self, new_height: i64) -> (done: bool)
        ensures
            final(self).height() == new_height,
            final(self).checks() == old(self).checks(),
            final(self).stable() == if new_height != old(self).height() {
                0
            } else if old(self).stable() < usize::MAX {
                old(self).stable() + 1
            } else {
                old(self).stable()
            },
            done == (final(self).stable() >= final(self).checks()),
    {
        if new_height == self.height {
            if self.stable < usize::MAX {
                self.stable = self.stable + 1;
            }
        } else {
            self.stable = 0;
            self.height = new_height;
        }
        self.stable >= self.checks
    }

    /// Takes what came of one more scroll: the height read after it, or
    /// nothing where the scroll or the reading failed. A failure stops the
    /// scrolling and leaves the poller as it was.
    pub fn step(&mut self, reading: Option<i64>) -> (done: bool)
        ensures
            reading is None ==> done && *final(self) == *old(self),
            reading matches Some(h) ==> {
                &&& final(self).height() == h
                &&& final(self).checks() == old(self).checks()
                &&& final(self).stable() == if h != old(self).height() {
                    0
                } else if old(self).stable() < usize::MAX {
                    old(self).stable() + 1
                } else {
                    old(self).stable()
                }
                &&& done == (final(self).stable() >= final(self).checks())
            },
    {
        match reading {
            Some(h) => self.observe(h),
            None => true,
        }
    }
}

/// How many scrolls it takes until the page counts as loaded, where the
/// heights read after the scrolls are `readings`: the first reading after
/// which the count of unchanged readings in a row has reached
/// `scroll_checks`. `None` where the readings end before that.
pub fn scrolls_until_stable(initial: i64, readings: &Vec<i64>, scroll_checks: usize) -> (r: Option<
    usize,
>)
    ensures
        match r {
            Some(n) => {
                &&& 1 <= n <= readings@.len()
                &&& stable_count(initial as int, heights(readings@), n as int) >= scroll_checks
                &&& forall|k: int|
                    1 <= k < n ==> #[trigger] stable_count(initial as int, heights(readings@), k)
                        < scroll_checks
            },
            None => forall|k: int|
                1 <= k <= readings@.len() ==> #[trigger] stable_count(
                    initial as int,
                    heights(readings@),
                    k,
                ) < scroll_checks,
        },
{
    let mut poller = ScrollPoller::new(initial, scroll_checks);
    let mut i: usize = 0;
    while i < readings.len()
        invariant
            i <= readings@.len(),
            poller.checks() == scroll_checks,
            poller.height() == height_before(initial as int, heights(readings@), i as int),
            poller.stable() == stable_count(initial as int, heights(readings@), i as int),
            poller.stable() <= i,
            forall|k: int|
                1 <= k <= i ==> #[trigger] stable_count(initial as int, heights(readings@), k)
                    < scroll_checks,
        decreases readings@.len() - i,
    {
        let done = poller.observe(readings[i]);
        i += 1;
        if done {
            return Some(i);
        }
    }
    None
}

/// A scrolling site to crawl: where its pages are, which nodes are
/// products, and how patiently to scroll.
#[derive(Debug)]
pub struct InfiniteScrollingSpider {
    name: String,
    base_url: String,
    subroutes: Vec<String>,
    css_locator: String,
    delay_milis: u64,
    scroll_delay_milis: u64,
    scroll_checks: usize,
    headless: bool,
}

/// An `InfiniteScrollingSpider` with the characters of its texts.
pub struct InfiniteScrollingSpiderView {
    pub name: Seq<char>,
    pub base_url: Seq<char>,
    pub subroutes: Seq<Seq<char>>,
    pub css_locator: Seq<char>,
    pub delay_milis: u64,
    pub scroll_delay_milis: u64,
    pub scroll_checks: usize,
    pub headless: bool,
}

/// How a spider shows itself: its name, its base address and the number
/// of its subroutes.
pub open spec fn spider_description(name: Seq<char>, base_url: Seq<char>, subroutes: nat) -> Seq<
    char,
> {
    name + " (url="@ + base_url + ", subroutes="@ + decimal_digits(subroutes) + ")"@
}

impl View for InfiniteScrollingSpider {
    type V = InfiniteScrollingSpiderView;

    closed spec fn view(&self) -> InfiniteScrollingSpiderView {
        InfiniteScrollingSpiderView {
            name: self.name@,
            base_url: self.base_url@,
            subroutes: texts_of(self.subroutes@),
            css_locator: self.css_locator@,
            delay_milis: self.delay_milis,
            scroll_delay_milis: self.scroll_delay_milis,
            scroll_checks: self.scroll_checks,
            headless: self.headless,
        }
    }
}

impl InfiniteScrollingSpider {
    #[verifier::type_invariant]
    spec fn valid(&self) -> bool {
        selector_parses(self.css_locator@)
    }

    /// A spider for one site. The selector has to be one that can be
    /// parsed; else there is no spider, and the error holds the selector.
    pub fn new(
        name: &str,
        base_url: &str,
        subroutes: Vec<String>,
        css_selector: &str,
        delay_milis: u64,
        scroll_delay_milis: u64,
        scroll_checks: usize,
        headless: bool,
    ) -> (r: Result<InfiniteScrollingSpider, SpiderError>)
        ensures
            match r {
                Ok(spider) => selector_parses(css_selector@) && spider@ == (
                InfiniteScrollingSpiderView {
                    name: name@,
                    base_url: base_url@,
                    subroutes: texts_of(subroutes@),
                    css_locator: css_selector@,
                    delay_milis,
                    scroll_delay_milis,
                    scroll_checks,
                    headless,
                }),
                Err(e) => !selector_parses(css_selector@) && e@ == SpiderErrorView::InvalidSelector(
                    css_selector@,
                ),
            },
    {
        if !selector_is_valid(css_selector) {
            return Err(SpiderError::InvalidSelector(String::from_str(css_selector)));
        }
        Ok(
            InfiniteScrollingSpider {
                name: String::from_str(name),
                base_url: String::from_str(base_url),
                subroutes,
                css_locator: String::from_str(css_selector),
                delay_milis,
                scroll_delay_milis,
                scroll_checks,
                headless,
            },
        )
    }

    /// The spider that the settings of one site describe, with the delays
    /// and the number of checks that all sites share.
    pub fn from_settings(settings: InfiniteScrollingSpiderSettings, global: &Settings) -> (r: Result<
        InfiniteScrollingSpider,
        SpiderError,
    >)
        ensures
            match r {
                Ok(spider) => selector_parses(settings.selector@) && spider@ == (
                InfiniteScrollingSpiderView {
                    name: settings.name@,
                    base_url: settings.base_url@,
                    subroutes: texts_of(settings.subroutes@),
                    css_locator: settings.selector@,
                    delay_milis: global.delay_milis,
                    scroll_delay_milis: global.infinite_scrolling.scroll_delay_milis,
                    scroll_checks: global.infinite_scrolling.scroll_checks,
                    headless: global.headless,
                }),
                Err(e) => !selector_parses(settings.selector@) && e@
                    == SpiderErrorView::InvalidSelector(settings.selector@),
            },
    {
        InfiniteScrollingSpider::new(
            settings.name.as_str(),
            settings.base_url.as_str(),
            settings.subroutes,
            settings.selector.as_str(),
            global.delay_milis,
            global.infinite_scrolling.scroll_delay_milis,
            global.infinite_scrolling.scroll_checks,
            global.headless,
        )
    }

    pub fn name(&self) -> (r: &str)
        ensures
            r@ == self@.name,
    {
        self.name.as_str()
    }

    pub fn base_url(&self) -> (r: &str)
        ensures
            r@ == self@.base_url,
    {
        self.base_url.as_str()
    }

    pub fn subroutes(&self) -> (r: &[String])
        ensures
            texts_of(r@) == self@.subroutes,
    {
        self.subroutes.as_slice()
    }

    /// The CSS selector that tells which nodes are products.
    pub fn css_locator(&self) -> (r: &str)
        ensures
            r@ == self@.css_locator,
            selector_parses(r@),
    {
        proof {
            use_type_invariant(self);
        }
        self.css_locator.as_str()
    }

    /// Delay to scrap between subroutes, in milliseconds.
    pub fn delay(&self) -> (r: u64)
        ensures
            r == self@.delay_milis,
    {
        self.delay_milis
    }

    /// How long to let the page settle after a scroll, in milliseconds.
    pub fn scroll_delay(&self) -> (r: u64)
        ensures
            r == self@.scroll_delay_milis,
    {
        self.scroll_delay_milis
    }

    /// How many readings in a row have to find the height unchanged.
    pub fn scroll_checks(&self) -> (r: usize)
        ensures
            r == self@.scroll_checks,
    {
        self.scroll_checks
    }

    pub fn headless(&self) -> (r: bool)
        ensures
            r == self@.headless,
    {
        self.headless
    }

    /// The name, the base address and the number of subroutes, in one line.
    pub fn describe(&self) -> (r: String)
        ensures
            r@ == spider_description(self@.name, self@.base_url, self@.subroutes.len()),
    {
        let mut out = self.name.clone();
        out.append(" (url=");
        out.append(self.base_url.as_str());
        out.append(", subroutes=");
        push_decimal(&mut out, self.subroutes.len());
        out.append(")");
        out
    }

    /// The pages to fetch, in the order of the subroutes: the first at
    /// once, each later one after the delay.
    pub fn requests(&self) -> (r: Vec<SubrouteRequest>)
        ensures
            r@.len() == self@.subroutes.len(),
            forall|i: int|
                0 <= i < r@.len() ==> (#[trigger] r@[i]).url@ == subroute_address(
                    self@.base_url,
                    self@.subroutes[i],
                ),
            forall|i: int|
                0 <= i < r@.len() ==> (#[trigger] r@[i]).delay_milis == if i == 0 {
                    0
                } else {
                    self@.delay_milis
                },
    {
        subroute_requests(self.base_url.as_str(), self.subroutes.as_slice(), self.delay_milis)
    }

    /// A poller for one page, at the height that the page has before any
    /// scroll.
    pub fn poller(&self, height: i64) -> (r: ScrollPoller)
        ensures
            r.height() == height,
            r.stable() == 0,
            r.checks() == self@.scroll_checks,
    {
        ScrollPoller::new(height, self.scroll_checks)
    }

    /// The records of one page, read off its markup once it has loaded:
    /// one for each node that matches the selector and gives an item,
    /// without those whose identity key came before.
    pub fn scrape_markup(&self, document: &str) -> (r: Vec<InfiniteScrollingItem>)
        ensures
            r@.map_values(|i: InfiniteScrollingItem| i@) == scrolling_records(
                selected_nodes(document@, self@.css_locator),
            ),
            distinct_identities(r@),
    {
        proof {
            use_type_invariant(self);
        }
        match select_nodes(document, self.css_locator.as_str()) {
            Some(nodes) => InfiniteScrollingItem::from_nodes(&nodes),
            None => Vec::new(),
        }
    }
}

impl Spider for InfiniteScrollingSpider {
    type Item = InfiniteScrollingItem;

    open spec fn site_name(&self) -> Seq<char> {
        self@.name
    }

    open spec fn base_address(&self) -> Seq<char> {
        self@.base_url
    }

    open spec fn subroute_texts(&self) -> Seq<Seq<char>> {
        self@.subroutes
    }

    open spec fn delay_between(&self) -> u64 {
        self@.delay_milis
    }

    fn name(&self) -> &str {
        self.name()
    }

    fn base_url(&self) -> (r: &str) {
        self.base_url()
    }

    fn subroutes(&self) -> (r: &[String]) {
        self.subroutes()
    }

    fn delay(&self) -> (r: u64) {
        self.delay()
    }

    fn scrape_document(&self, document: &str, url: &str) -> (r: Vec<InfiniteScrollingItem>)
        ensures
            r@.map_values(|i: InfiniteScrollingItem| i@) == scrolling_records(
                selected_nodes(document@, self@.css_locator),
            ),
    {
        InfiniteScrollingSpider::scrape_markup(self, document)
    }
}

} // verus!
