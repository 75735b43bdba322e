//! The Metro site: a scrolling site whose pages are always rendered
//! without a window.

use crate::attributes::AttributeMap;
use crate::markup::{select_nodes, selected_nodes, selector_is_valid, selector_parses};
use crate::spiders::infinite_scrolling::{
    scrolling_item_of, scrolling_records, InfiniteScrollingItem, InfiniteScrollingItemView,
    ScrollPoller,
};
use crate::spiders::{
    distinct_identities, subroute_address, subroute_requests, text_of, texts_of, Price, Record,
    Spider, SpiderError, SpiderErrorView, SubrouteRequest,
};
use crate::text::{decimal_digits, push_decimal};
use vstd::prelude::*;

verus! {

/// One product as a page of the site shows it.
#[derive(Debug)]
pub struct MetroItem {
    pub id: String,
    pub brand: Option<String>,
    pub uri: Option<String>,
    pub name: Option<String>,
    pub price: Option<Price>,
    pub category: Option<String>,
}

impl View for MetroItem {
    type V = InfiniteScrollingItemView;

    open spec fn view(&self) -> InfiniteScrollingItemView {
        InfiniteScrollingItemView {
            id: self.id@,
            brand: text_of(self.brand),
            uri: text_of(self.uri),
            name: text_of(self.name),
            price: self.price,
            category: text_of(self.category),
        }
    }
}

impl Record for MetroItem {
    open spec fn identity(&self) -> Seq<char> {
        self.id@
    }

    fn same_identity(&self, other: &Self) -> (b: bool) {
        self.id == other.id
    }
}

/// The result of an extraction with the characters of its texts.
pub open spec fn metro_result_view(r: Result<MetroItem, SpiderError>) -> Result<
    InfiniteScrollingItemView,
    SpiderErrorView,
> {
    match r {
        Ok(item) => Ok(item@),
        Err(e) => Err(e@),
    }
}

impl MetroItem {
    fn of(item: InfiniteScrollingItem) -> (r: MetroItem)
        ensures
            r@ == item@,
    {
        MetroItem {
            id: item.id,
            brand: item.brand,
            uri: item.uri,
            name: item.name,
            price: item.price,
            category: item.category,
        }
    }

    /// Builds the item of one node from its attributes, by the rule of
    /// all scrolling sites.
    pub fn try_from(map: AttributeMap) -> (r: Result<MetroItem, SpiderError>)
        ensures
            metro_result_view(r) == scrolling_item_of(map@),
    {
        match InfiniteScrollingItem::try_from(map) {
            Ok(item) => Ok(MetroItem::of(item)),
            Err(e) => Err(e),
        }
    }

    /// Builds the records of one page from the attributes of its matching
    /// nodes. A node that gives no item is passed over; of the items that
    /// share an identity key the first stays.
    pub fn from_nodes(nodes: &Vec<Vec<(String, String)>>) -> (r: Vec<MetroItem>)
        ensures
            r@.map_values(|i: MetroItem| i@) == scrolling_records(nodes.deep_view()),
            distinct_identities(r@),
    {
        let items = InfiniteScrollingItem::from_nodes(nodes);
        let ghost given = items@;
        let mut out: Vec<MetroItem> = Vec::new();
        for item in it: items
            invariant
                it.seq() == given,
                out@.len() == it.index(),
                forall|j: int| 0 <= j < out@.len() ==> (#[trigger] out@[j])@ == given[j]@,
        {
            out.push(MetroItem::of(item));
        }
        assert(out@.map_values(|i: MetroItem| i@) == given.map_values(
            |i: InfiniteScrollingItem| i@,
        ));
        assert forall|i: int, j: int| 0 <= i < j < out@.len() implies (#[trigger] out@[i]).identity()
            != (#[trigger] out@[j]).identity() by {
            assert(out@[i]@ == given[i]@);
            assert(out@[j]@ == given[j]@);
            assert(given[i].identity() != given[j].identity());
        }
        out
    }
}

/// The site to crawl: where its pages are, which nodes are products, and
/// how patiently to scroll.
#[derive(Debug)]
pub struct MetroSpider {
    name: String,
    base_url: String,
    subroutes: Vec<String>,
    selector: String,
    delay_milis: u64,
    scroll_delay_milis: u64,
    scroll_checks: usize,
}

/// A `MetroSpider` with the characters of its texts.
pub struct MetroSpiderView {
    pub name: Seq<char>,
    pub base_url: Seq<char>,
    pub subroutes: Seq<Seq<char>>,
    pub selector: Seq<char>,
    pub delay_milis: u64,
    pub scroll_delay_milis: u64,
    pub scroll_checks: usize,
}

impl View for MetroSpider {
    type V = MetroSpiderView;

    closed spec fn view(&self) -> MetroSpiderView {
        MetroSpiderView {
            name: self.name@,
            base_url: self.base_url@,
            subroutes: texts_of(self.subroutes@),
            selector: self.selector@,
            delay_milis: self.delay_milis,
            scroll_delay_milis: self.scroll_delay_milis,
            scroll_checks: self.scroll_checks,
        }
    }
}

/// How the spider shows itself: its name and the number of its subroutes.
pub open spec fn metro_description(name: Seq<char>, subroutes: nat) -> Seq<char> {
    "MetroSpider ("@ + name + ", subroutes="@ + decimal_digits(subroutes) + ")"@
}

impl MetroSpider {
    #[verifier::type_invariant]
    spec fn valid(&self) -> bool {
        selector_parses(self.selector@)
    }

    /// A spider for the site. The selector has to be one that can be
    /// parsed; else there is no spider, and the error holds the selector.
    pub fn new(
        name: &str,
        base_url: &str,
        subroutes: Vec<String>,
        selector: &str,
        delay_milis: u64,
        scroll_delay_milis: u64,
        scroll_checks: usize,
    ) -> (r: Result<MetroSpider, SpiderError>)
        ensures
            match r {
                Ok(spider) => selector_parses(selector@) && spider@ == (MetroSpiderView {
                    name: name@,
                    base_url: base_url@,
                    subroutes: texts_of(subroutes@),
                    selector: selector@,
                    delay_milis,
                    scroll_delay_milis,
                    scroll_checks,
                }),
                Err(e) => !selector_parses(selector@) && e@ == SpiderErrorView::InvalidSelector(
                    selector@,
                ),
            },
    {
        if !selector_is_valid(selector) {
            return Err(SpiderError::InvalidSelector(String::from_str(selector)));
        }
        Ok(
            MetroSpider {
                name: String::from_str(name),
                base_url: String::from_str(base_url),
                subroutes,
                selector: String::from_str(selector),
                delay_milis,
                scroll_delay_milis,
                scroll_checks,
            },
        )
    }

    pub fn name(&self) -> (r: &str)
        ensures
            r@ == self@.name,
    {
        self.name.as_str()
    }

    pub fn base_url(&self) -> (r: &str)
        ensures
            r@ == self@.base_url,
    {
        self.base_url.as_str()
    }

    pub fn subroutes(&self) -> (r: &[String])
        ensures
            texts_of(r@) == self@.subroutes,
    {
        self.subroutes.as_slice()
    }

    /// The CSS selector that tells which nodes are products.
    pub fn selector(&self) -> (r: &str)
        ensures
            r@ == self@.selector,
            selector_parses(r@),
    {
        proof {
            use_type_invariant(self);
        }
        self.selector.as_str()
    }

    /// Delay to scrap between subroutes, in milliseconds.
    pub fn delay(&self) -> (r: u64)
        ensures
            r == self@.delay_milis,
    {
        self.delay_milis
    }

    /// How long to let the page settle after a scroll, in milliseconds.
    pub fn scroll_delay(&self) -> (r: u64)
        ensures
            r == self@.scroll_delay_milis,
    {
        self.scroll_delay_milis
    }

    /// How many readings in a row have to find the height unchanged.
    pub fn scroll_checks(&self) -> (r: usize)
        ensures
            r == self@.scroll_checks,
    {
        self.scroll_checks
    }

    /// The name and the number of subroutes, in one line.
    pub fn describe(&self) -> (r: String)
        ensures
            r@ == metro_description(self@.name, self@.subroutes.len()),
    {
        let mut out = String::from_str("MetroSpider (");
        out.append(self.name.as_str());
        out.append(", subroutes=");
        push_decimal(&mut out, self.subroutes.len());
        out.append(")");
        out
    }

    /// The pages to fetch, in the order of the subroutes: the first at
    /// once, each later one after the delay.
    pub fn requests(&self) -> (r: Vec<SubrouteRequest>)
        ensures
            r@.len() == self@.subroutes.len(),
            forall|i: int|
                0 <= i < r@.len() ==> (#[trigger] r@[i]).url@ == subroute_address(
                    self@.base_url,
                    self@.subroutes[i],
                ),
            forall|i: int|
                0 <= i < r@.len() ==> (#[trigger] r@[i]).delay_milis == if i == 0 {
                    0
                } else {
                    self@.delay_milis
                },
    {
        subroute_requests(self.base_url.as_str(), self.subroutes.as_slice(), self.delay_milis)
    }

    /// A poller for one page, at the height that the page has before any
    /// scroll.
    pub fn poller(&self, height: i64) -> (r: ScrollPoller)
        ensures
            r.height() == height,
            r.stable() == 0,
            r.checks() == self@.scroll_checks,
    {
        ScrollPoller::new(height, self.scroll_checks)
    }

    /// The records of one page, read off its markup once it has loaded:
    /// one for each node that matches the selector and gives an item,
    /// without those whose identity key came before.
    pub fn scrape_markup(&self, document: &str) -> (r: Vec<MetroItem>)
        ensures
            r@.map_values(|i: MetroItem| i@) == scrolling_records(
                selected_nodes(document@, self@.selector),
            ),
            distinct_identities(r@),
    {
        proof {
            use_type_invariant(self);
        }
        match select_nodes(document, self.selector.as_str()) {
            Some(nodes) => MetroItem::from_nodes(&nodes),
            None => Vec::new(),
        }
    }
}

impl Spider for MetroSpider {
    type Item = MetroItem;

    open spec fn site_name(&self) -> Seq<char> {
        self@.name
    }

    open spec fn base_address(&self) -> Seq<char> {
        self@.base_url
    }

    open spec fn subroute_texts(&self) -> Seq<Seq<char>> {
        self@.subroutes
    }

    open spec fn delay_between(&self) -> u64 {
        self@.delay_milis
    }

    fn name(&self) -> (r: &str) {
        self.name()
    }

    fn base_url(&self) -> (r: &str) {
        self.base_url()
    }

    fn subroutes(&self) -> (r: &[String]) {
        self.subroutes()
    }

    fn delay(&self) -> (r: u64) {
        self.delay()
    }

    fn scrape_document(&self, document: &str, url: &str) -> (r: Vec<MetroItem>)
        ensures
            r@.map_values(|i: MetroItem| i@) == scrolling_records(
                selected_nodes(document@, self@.selector),
            ),
    {
        MetroSpider::scrape_markup(self, document)
    }
}

} // verus!
