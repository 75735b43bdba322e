//! Sites that list their products on plain pages, one page per subroute.

use crate::attributes::{lemma_absent_below, lemma_last_wins, pairs_map, AttributeMap};
use crate::configuration::{MultipageSpiderSettings, Settings};
use crate::markup::{
    select_children, select_nodes, selected_children, selected_nodes, selector_is_valid,
    selector_parses,
};
use crate::spiders::infinite_scrolling::spider_description;
use crate::text::{from_chars, push_decimal, to_chars, trim, trimmed};
use crate::spiders::{
    dedup, distinct_identities, first_by, identity_of, lemma_first_by_map, lookup, parse_price,
    price_in, subroute_address, subroute_requests, text_of, texts_of, Price, Record, Spider,
    SpiderError, SpiderErrorView, SubrouteRequest,
};
use vstd::prelude::*;

verus! {

/// One product as a listing page shows it.
#[derive(Debug)]
pub struct MultipageItem {
    pub sku: String,
    pub name: Option<String>,
    pub brand: Option<String>,
    pub category: Option<String>,
    pub uri: Option<String>,
    pub price: Option<Price>,
}

/// A `MultipageItem` with the characters of its fields.
pub struct MultipageItemView {
    pub sku: Seq<char>,
    pub name: Option<Seq<char>>,
    pub brand: Option<Seq<char>>,
    pub category: Option<Seq<char>>,
    pub uri: Option<Seq<char>>,
    pub price: Option<Price>,
}

impl View for MultipageItem {
    type V = MultipageItemView;

    open spec fn view(&self) -> MultipageItemView {
        MultipageItemView {
            sku: self.sku@,
            name: text_of(self.name),
            brand: text_of(self.brand),
            category: text_of(self.category),
            uri: text_of(self.uri),
            price: self.price,
        }
    }
}

impl Record for MultipageItem {
    open spec fn identity(&self) -> Seq<char> {
        self.sku@
    }

    fn same_identity(&self, other: &Self) -> (b: bool) {
        self.sku == other.sku
    }
}

/// The raw price of a node: its `data-price`, or else the text of its sale
/// price.
pub open spec fn listed_price(m: Map<Seq<char>, Seq<char>>) -> Option<Seq<char>> {
    if m.contains_key("data-price"@) {
        Some(m["data-price"@])
    } else {
        lookup(m, ".Showcase__salePrice"@)
    }
}

/// What the attributes `m` of one node give: the item, or the reason why
/// the node is none. The identity key is looked at first, then the price,
/// then whether anything besides the key is there.
pub open spec fn listed_item_of(m: Map<Seq<char>, Seq<char>>) -> Result<
    MultipageItemView,
    SpiderErrorView,
> {
    let price = listed_price(m);
    if !m.contains_key("data-sku"@) {
        Err(SpiderErrorView::MissingIdentity)
    } else if price is Some && price_in(price) is None {
        Err(SpiderErrorView::PriceParseError(price->0))
    } else if !m.contains_key("title"@) && !m.contains_key(".Showcase__brand a"@)
        && !m.contains_key("category"@) && !m.contains_key("href"@) && price is None {
        Err(SpiderErrorView::NoDataExtracted(m["data-sku"@]))
    } else {
        Ok(
            MultipageItemView {
                sku: m["data-sku"@],
                name: lookup(m, "title"@),
                brand: lookup(m, ".Showcase__brand a"@),
                category: lookup(m, "category"@),
                uri: lookup(m, "href"@),
                price: price_in(price),
            },
        )
    }
}

/// The result of an extraction with the characters of its texts.
pub open spec fn listed_result_view(r: Result<MultipageItem, SpiderError>) -> Result<
    MultipageItemView,
    SpiderErrorView,
> {
    match r {
        Ok(item) => Ok(item@),
        Err(e) => Err(e@),
    }
}

impl MultipageItem {
    /// Builds the item of one node from its attributes.
    pub fn try_from(map: AttributeMap) -> (r: Result<MultipageItem, SpiderError>)
        ensures
            listed_result_view(r) == listed_item_of(map@),
    {
        let sku = match map.get_owned("data-sku") {
            Some(sku) => sku,
            None => {
                return Err(SpiderError::MissingIdentity);
            },
        };
        let name = map.get_owned("title");
        let brand = map.get_owned(".Showcase__brand a");
        let category = map.get_owned("category");
        let uri = map.get_owned("href");
        let raw = match map.get("data-price") {
            Some(raw) => Some(raw),
            None => map.get(".Showcase__salePrice"),
        };
        let price = match raw {
            Some(raw) => match parse_price(raw.as_str()) {
                Ok(p) => Some(p),
                Err(e) => {
                    return Err(e);
                },
            },
            None => None,
        };
        if name.is_none() && brand.is_none() && category.is_none() && uri.is_none()
            && price.is_none() {
            Err(SpiderError::NoDataExtracted(sku))
        } else {
            Ok(MultipageItem { sku, name, brand, category, uri, price })
        }
    }
}

/// A node without an identity key gives `MissingIdentity`, whatever else
/// it carries.
pub proof fn lemma_listed_missing_identity(m: Map<Seq<char>, Seq<char>>)
    requires
        !m.contains_key("data-sku"@),
    ensures
        listed_item_of(m) == Err::<MultipageItemView, SpiderErrorView>(
            SpiderErrorView::MissingIdentity,
        ),
{
}

/// A node that carries its identity key and none of the descriptive
/// fields gives no item, whatever other attributes it has.
pub proof fn lemma_listed_no_field_is_no_item(m: Map<Seq<char>, Seq<char>>)
    requires
        m.contains_key("data-sku"@),
        !m.contains_key("title"@),
        !m.contains_key(".Showcase__brand a"@),
        !m.contains_key("category"@),
        !m.contains_key("href"@),
        !m.contains_key("data-price"@),
        !m.contains_key(".Showcase__salePrice"@),
    ensures
        listed_item_of(m) == Err::<MultipageItemView, SpiderErrorView>(
            SpiderErrorView::NoDataExtracted(m["data-sku"@]),
        ),
{
}

/// A node that carries its identity key and nothing else gives no item.
pub proof fn lemma_listed_identity_alone(m: Map<Seq<char>, Seq<char>>)
    requires
        m.contains_key("data-sku"@),
        forall|k: Seq<char>| m.contains_key(k) ==> k == "data-sku"@,
    ensures
        listed_item_of(m) == Err::<MultipageItemView, SpiderErrorView>(
            SpiderErrorView::NoDataExtracted(m["data-sku"@]),
        ),
{
    reveal_strlit("data-sku");
    reveal_strlit("title");
    reveal_strlit(".Showcase__brand a");
    reveal_strlit("category");
    reveal_strlit("href");
    reveal_strlit("data-price");
    reveal_strlit(".Showcase__salePrice");
    assert("title"@.len() != "data-sku"@.len());
    assert(".Showcase__brand a"@.len() != "data-sku"@.len());
    assert("category"@[0] != "data-sku"@[0]);
    assert("href"@.len() != "data-sku"@.len());
    assert("data-price"@.len() != "data-sku"@.len());
    assert(".Showcase__salePrice"@.len() != "data-sku"@.len());
}

/// The first `k` of the texts, one after the other.
pub open spec fn joined(texts: Seq<Seq<char>>, k: int) -> Seq<char>
    decreases k,
{
    if k <= 0 {
        Seq::empty()
    } else {
        joined(texts, k - 1) + texts[k - 1]
    }
}

/// The text of a node whose text nodes hold `texts`: all of them or the
/// first alone, trimmed.
pub open spec fn child_text(texts: Seq<Seq<char>>, all: bool) -> Seq<char> {
    trimmed(
        if all {
            joined(texts, texts.len() as int)
        } else if texts.len() > 0 {
            texts[0]
        } else {
            Seq::empty()
        },
    )
}

/// `m` with those of the first `k` names that `attributes` has, each with
/// its value there.
pub open spec fn with_values(
    m: Map<Seq<char>, Seq<char>>,
    attributes: Map<Seq<char>, Seq<char>>,
    names: Seq<Seq<char>>,
    k: int,
) -> Map<Seq<char>, Seq<char>>
    decreases k,
{
    if k <= 0 {
        m
    } else {
        let before = with_values(m, attributes, names, k - 1);
        if attributes.contains_key(names[k - 1]) {
            before.insert(names[k - 1], attributes[names[k - 1]])
        } else {
            before
        }
    }
}

/// `m` with what the first of `matches` adds: its text under the name
/// `class`, and those of its attributes that `names` asks for. Without a
/// match `m` stays as it is.
pub open spec fn with_child(
    m: Map<Seq<char>, Seq<char>>,
    matches: Seq<(Seq<(Seq<char>, Seq<char>)>, Seq<Seq<char>>)>,
    class: Seq<char>,
    all: bool,
    names: Seq<Seq<char>>,
) -> Map<Seq<char>, Seq<char>> {
    if matches.len() == 0 {
        m
    } else {
        with_values(
            m.insert(class, child_text(matches[0].1, all)),
            pairs_map(matches[0].0, matches[0].0.len() as int),
            names,
            names.len() as int,
        )
    }
}

fn text_of_child(texts: &Vec<String>, all: bool) -> (r: String)
    ensures
        r@ == child_text(texts.deep_view(), all),
{
    let mut raw = String::new();
    if all {
        let mut k: usize = 0;
        while k < texts.len()
            invariant
                k <= texts@.len(),
                raw@ == joined(texts.deep_view(), k as int),
            decreases texts@.len() - k,
        {
            raw.append(texts[k].as_str());
            k += 1;
        }
    } else if texts.len() > 0 {
        raw = texts[0].clone();
    }
    from_chars(&trim(&to_chars(raw.as_str())))
}

/// Adds to `map` what the first of the `matches` of one child selector
/// holds: its text under the name `class`, all of it or its first piece,
/// and those of its attributes that `values_to_extract` names.
pub fn add_to_map(
    map: &mut AttributeMap,
    matches: &Vec<(Vec<(String, String)>, Vec<String>)>,
    class: &str,
    extract_all_text: bool,
    values_to_extract: &Vec<String>,
)
    ensures
        final(map)@ == with_child(
            old(map)@,
            matches.deep_view(),
            class@,
            extract_all_text,
            values_to_extract.deep_view(),
        ),
{
    if matches.len() == 0 {
        return;
    }
    let child = &matches[0];
    assert(matches.deep_view()[0] == (child.0.deep_view(), child.1.deep_view()));
    let attributes = AttributeMap::from_pairs(&child.0);
    let text = text_of_child(&child.1, extract_all_text);
    map.insert(String::from_str(class), text);
    let ghost start = map@;
    let mut k: usize = 0;
    while k < values_to_extract.len()
        invariant
            k <= values_to_extract@.len(),
            map@ == with_values(start, attributes@, values_to_extract.deep_view(), k as int),
        decreases values_to_extract@.len() - k,
    {
        match attributes.get_owned(values_to_extract[k].as_str()) {
            Some(value) => {
                map.insert(values_to_extract[k].clone(), value);
            },
            None => {},
        }
        k += 1;
    }
}

/// What the child selectors of a listing found below each product node:
/// one list of matches for each node, in the order of the nodes.
#[derive(Debug)]
pub struct ShowcaseChildren {
    pub content: Vec<Vec<(Vec<(String, String)>, Vec<String>)>>,
    pub brand: Vec<Vec<(Vec<(String, String)>, Vec<String>)>>,
    pub price_title: Vec<Vec<(Vec<(String, String)>, Vec<String>)>>,
    pub link: Vec<Vec<(Vec<(String, String)>, Vec<String>)>>,
    pub sale_price: Vec<Vec<(Vec<(String, String)>, Vec<String>)>>,
}

/// The matches below node `i`, none where the list is too short.
pub open spec fn matches_of(
    lists: Seq<Seq<(Seq<(Seq<char>, Seq<char>)>, Seq<Seq<char>>)>>,
    i: int,
) -> Seq<(Seq<(Seq<char>, Seq<char>)>, Seq<Seq<char>>)> {
    if 0 <= i < lists.len() {
        lists[i]
    } else {
        Seq::empty()
    }
}

/// Everything that one product node says of itself: its own attributes
/// and what its children add, in the order content, brand, price title,
/// link, sale price. The page it stands on adds nothing here.
pub open spec fn showcase_map(
    attributes: Seq<(Seq<char>, Seq<char>)>,
    content: Seq<(Seq<(Seq<char>, Seq<char>)>, Seq<Seq<char>>)>,
    brand: Seq<(Seq<(Seq<char>, Seq<char>)>, Seq<Seq<char>>)>,
    price_title: Seq<(Seq<(Seq<char>, Seq<char>)>, Seq<Seq<char>>)>,
    link: Seq<(Seq<(Seq<char>, Seq<char>)>, Seq<Seq<char>>)>,
    sale_price: Seq<(Seq<(Seq<char>, Seq<char>)>, Seq<Seq<char>>)>,
) -> Map<Seq<char>, Seq<char>> {
    let m0 = pairs_map(attributes, attributes.len() as int);
    let m1 = with_child(m0, content, ".Showcase__content"@, false, seq!["title"@]);
    let m2 = with_child(m1, brand, ".Showcase__brand a"@, false, Seq::empty());
    let m3 = with_child(m2, price_title, ".Showcase__priceBox__title"@, true, Seq::empty());
    let m4 = with_child(m3, link, ".Showcase__link"@, false, seq!["href"@]);
    with_child(m4, sale_price, ".Showcase__salePrice"@, false, seq!["data-price"@])
}

/// The item with the address of its page as its category, where the
/// node named no category of its own.
pub open spec fn with_page_category(item: MultipageItemView, url: Seq<char>) -> MultipageItemView {
    MultipageItemView {
        category: match item.category {
            Some(own) => Some(own),
            None => Some(url),
        },
        ..item
    }
}

/// The items that the first `k` of the nodes give, in order. Whether a
/// node gives an item is decided by what the node says of itself; a node
/// that gives none is passed over, and the page address only fills in the
/// category of an item that is there.
pub open spec fn listed_items_in(
    nodes: Seq<Seq<(Seq<char>, Seq<char>)>>,
    url: Seq<char>,
    content: Seq<Seq<(Seq<(Seq<char>, Seq<char>)>, Seq<Seq<char>>)>>,
    brand: Seq<Seq<(Seq<(Seq<char>, Seq<char>)>, Seq<Seq<char>>)>>,
    price_title: Seq<Seq<(Seq<(Seq<char>, Seq<char>)>, Seq<Seq<char>>)>>,
    link: Seq<Seq<(Seq<(Seq<char>, Seq<char>)>, Seq<Seq<char>>)>>,
    sale_price: Seq<Seq<(Seq<(Seq<char>, Seq<char>)>, Seq<Seq<char>>)>>,
    k: int,
) -> Seq<MultipageItemView>
    decreases k,
{
    if k <= 0 {
        Seq::empty()
    } else {
        let before = listed_items_in(nodes, url, content, brand, price_title, link, sale_price, k - 1);
        let map = showcase_map(
            nodes[k - 1],
            matches_of(content, k - 1),
            matches_of(brand, k - 1),
            matches_of(price_title, k - 1),
            matches_of(link, k - 1),
            matches_of(sale_price, k - 1),
        );
        match listed_item_of(map) {
            Ok(item) => before.push(with_page_category(item, url)),
            Err(_) => before,
        }
    }
}

/// On a listing page, a node whose attributes are its identity key and
/// nothing else, and below which no child selector finds anything, adds
/// no item, whatever the address of the page.
pub proof fn lemma_listed_bare_node_adds_nothing(
    nodes: Seq<Seq<(Seq<char>, Seq<char>)>>,
    url: Seq<char>,
    content: Seq<Seq<(Seq<(Seq<char>, Seq<char>)>, Seq<Seq<char>>)>>,
    brand: Seq<Seq<(Seq<(Seq<char>, Seq<char>)>, Seq<Seq<char>>)>>,
    price_title: Seq<Seq<(Seq<(Seq<char>, Seq<char>)>, Seq<Seq<char>>)>>,
    link: Seq<Seq<(Seq<(Seq<char>, Seq<char>)>, Seq<Seq<char>>)>>,
    sale_price: Seq<Seq<(Seq<(Seq<char>, Seq<char>)>, Seq<Seq<char>>)>>,
    k: int,
)
    requires
        0 <= k < nodes.len(),
        nodes[k].len() > 0,
        forall|i: int| 0 <= i < nodes[k].len() ==> (#[trigger] nodes[k][i]).0 == "data-sku"@,
        matches_of(content, k).len() == 0,
        matches_of(brand, k).len() == 0,
        matches_of(price_title, k).len() == 0,
        matches_of(link, k).len() == 0,
        matches_of(sale_price, k).len() == 0,
    ensures
        listed_items_in(nodes, url, content, brand, price_title, link, sale_price, k + 1)
            == listed_items_in(nodes, url, content, brand, price_title, link, sale_price, k),
{
    let node = nodes[k];
    let n = node.len() as int;
    let m = pairs_map(node, n);
    assert(showcase_map(
        node,
        matches_of(content, k),
        matches_of(brand, k),
        matches_of(price_title, k),
        matches_of(link, k),
        matches_of(sale_price, k),
    ) == m);
    reveal_strlit("data-sku");
    reveal_strlit("title");
    reveal_strlit(".Showcase__brand a");
    reveal_strlit("category");
    reveal_strlit("href");
    reveal_strlit("data-price");
    reveal_strlit(".Showcase__salePrice");
    assert("title"@.len() != "data-sku"@.len());
    assert(".Showcase__brand a"@.len() != "data-sku"@.len());
    assert("category"@[0] != "data-sku"@[0]);
    assert("href"@.len() != "data-sku"@.len());
    assert("data-price"@.len() != "data-sku"@.len());
    assert(".Showcase__salePrice"@.len() != "data-sku"@.len());
    lemma_last_wins(node, n - 1, n, "data-sku"@);
    lemma_absent_below(node, n, "title"@);
    lemma_absent_below(node, n, ".Showcase__brand a"@);
    lemma_absent_below(node, n, "category"@);
    lemma_absent_below(node, n, "href"@);
    lemma_absent_below(node, n, "data-price"@);
    lemma_absent_below(node, n, ".Showcase__salePrice"@);
    lemma_listed_no_field_is_no_item(m);
}

/// The records of a listing page: one for each node that gives an item,
/// without those whose identity key came before.
pub open spec fn listed_records(
    nodes: Seq<Seq<(Seq<char>, Seq<char>)>>,
    url: Seq<char>,
    content: Seq<Seq<(Seq<(Seq<char>, Seq<char>)>, Seq<Seq<char>>)>>,
    brand: Seq<Seq<(Seq<(Seq<char>, Seq<char>)>, Seq<Seq<char>>)>>,
    price_title: Seq<Seq<(Seq<(Seq<char>, Seq<char>)>, Seq<Seq<char>>)>>,
    link: Seq<Seq<(Seq<(Seq<char>, Seq<char>)>, Seq<Seq<char>>)>>,
    sale_price: Seq<Seq<(Seq<(Seq<char>, Seq<char>)>, Seq<Seq<char>>)>>,
) -> Seq<MultipageItemView> {
    first_by(
        listed_items_in(
            nodes,
            url,
            content,
            brand,
            price_title,
            link,
            sale_price,
            nodes.len() as int,
        ),
        |v: MultipageItemView| v.sku,
    )
}

fn add_child_of(
    map: &mut AttributeMap,
    lists: &Vec<Vec<(Vec<(String, String)>, Vec<String>)>>,
    i: usize,
    class: &str,
    extract_all_text: bool,
    values_to_extract: &Vec<String>,
)
    ensures
        final(map)@ == with_child(
            old(map)@,
            matches_of(lists.deep_view(), i as int),
            class@,
            extract_all_text,
            values_to_extract.deep_view(),
        ),
{
    if i < lists.len() {
        assert(lists.deep_view()[i as int] == lists@[i as int].deep_view());
        add_to_map(map, &lists[i], class, extract_all_text, values_to_extract);
    }
}

fn names_of_one(name: &str) -> (r: Vec<String>)
    ensures
        r.deep_view() == seq![name@],
{
    let mut names: Vec<String> = Vec::new();
    names.push(String::from_str(name));
    assert(names.deep_view() == seq![name@]);
    names
}

impl MultipageItem {
    /// Builds the records of one listing page from the attributes of its
    /// product nodes, the address of the page and what the child selectors
    /// found. A node that gives no item is passed over, also one that
    /// carries its identity key and nothing else; an item without a
    /// category of its own gets the address of the page; of the items
    /// that share an identity key the first stays.
    pub fn from_nodes(nodes: &Vec<Vec<(String, String)>>, url: &str, children: &ShowcaseChildren) -> (r:
        Vec<MultipageItem>)
        ensures
            r@.map_values(|i: MultipageItem| i@) == listed_records(
                nodes.deep_view(),
                url@,
                children.content.deep_view(),
                children.brand.deep_view(),
                children.price_title.deep_view(),
                children.link.deep_view(),
                children.sale_price.deep_view(),
            ),
            distinct_identities(r@),
    {
        let none: Vec<String> = Vec::new();
        assert(none.deep_view() == Seq::<Seq<char>>::empty());
        let title = names_of_one("title");
        let href = names_of_one("href");
        let data_price = names_of_one("data-price");
        let mut found: Vec<MultipageItem> = Vec::new();
        let mut k: usize = 0;
        while k < nodes.len()
            invariant
                k <= nodes@.len(),
                none.deep_view() == Seq::<Seq<char>>::empty(),
                title.deep_view() == seq!["title"@],
                href.deep_view() == seq!["href"@],
                data_price.deep_view() == seq!["data-price"@],
                found@.map_values(|i: MultipageItem| i@) == listed_items_in(
                    nodes.deep_view(),
                    url@,
                    children.content.deep_view(),
                    children.brand.deep_view(),
                    children.price_title.deep_view(),
                    children.link.deep_view(),
                    children.sale_price.deep_view(),
                    k as int,
                ),
            decreases nodes@.len() - k,
        {
            let mut map = AttributeMap::from_pairs(&nodes[k]);
            assert(nodes.deep_view()[k as int] == nodes@[k as int].deep_view());
            add_child_of(&mut map, &children.content, k, ".Showcase__content", false, &title);
            add_child_of(&mut map, &children.brand, k, ".Showcase__brand a", false, &none);
            add_child_of(
                &mut map,
                &children.price_title,
                k,
                ".Showcase__priceBox__title",
                true,
                &none,
            );
            add_child_of(&mut map, &children.link, k, ".Showcase__link", false, &href);
            add_child_of(
                &mut map,
                &children.sale_price,
                k,
                ".Showcase__salePrice",
                false,
                &data_price,
            );
            let ghost before = found@;
            match MultipageItem::try_from(map) {
                Ok(item) => {
                    let mut item = item;
                    let ghost own = item@;
                    if item.category.is_none() {
                        item.category = Some(String::from_str(url));
                    }
                    assert(item@ == with_page_category(own, url@));
                    found.push(item);
                    assert(found@.map_values(|i: MultipageItem| i@) == before.map_values(
                        |i: MultipageItem| i@,
                    ).push(item@));
                },
                Err(_) => {},
            }
            k += 1;
        }
        let ghost all = found@;
        let out = dedup(found);
        proof {
            lemma_first_by_map(
                all,
                |i: MultipageItem| i@,
                identity_of::<MultipageItem>(),
                |v: MultipageItemView| v.sku,
            );
        }
        out
    }
}

/// A site of plain pages to crawl: where its pages are and which nodes
/// are products.
#[derive(Debug)]
pub struct MultipageSpider {
    name: String,
    base_url: String,
    subroutes: Vec<String>,
    css_locator: String,
    delay_milis: u64,
    headless: bool,
}

/// A `MultipageSpider` with the characters of its texts.
pub struct MultipageSpiderView {
    pub name: Seq<char>,
    pub base_url: Seq<char>,
    pub subroutes: Seq<Seq<char>>,
    pub css_locator: Seq<char>,
    pub delay_milis: u64,
    pub headless: bool,
}

impl View for MultipageSpider {
    type V = MultipageSpiderView;

    closed spec fn view(&self) -> MultipageSpiderView {
        MultipageSpiderView {
            name: self.name@,
            base_url: self.base_url@,
            subroutes: texts_of(self.subroutes@),
            css_locator: self.css_locator@,
            delay_milis: self.delay_milis,
            headless: self.headless,
        }
    }
}

/// What the child selector `class` finds below each node of `document`
/// that matches `css`; nothing where `class` cannot be parsed.
pub open spec fn children_found(document: Seq<char>, css: Seq<char>, class: Seq<char>) -> Seq<
    Seq<(Seq<(Seq<char>, Seq<char>)>, Seq<Seq<char>>)>,
> {
    if selector_parses(class) {
        selected_children(document, css, class)
    } else {
        Seq::empty()
    }
}

fn find_children(document: &str, css: &str, class: &str) -> (r: Vec<
    Vec<(Vec<(String, String)>, Vec<String>)>,
>)
    requires
        selector_parses(css@),
    ensures
        r.deep_view() == children_found(document@, css@, class@),
{
    match select_children(document, css, class) {
        Some(lists) => lists,
        None => {
            let lists: Vec<Vec<(Vec<(String, String)>, Vec<String>)>> = Vec::new();
            assert(lists.deep_view() == Seq::<
                Seq<(Seq<(Seq<char>, Seq<char>)>, Seq<Seq<char>>)>,
            >::empty());
            lists
        },
    }
}

impl MultipageSpider {
    #[verifier::type_invariant]
    spec fn valid(&self) -> bool {
        selector_parses(self.css_locator@)
    }

    /// A spider for one site. The selector has to be one that can be
    /// parsed; else there is no spider, and the error holds the selector.
    pub fn new(
        name: &str,
        base_url: &str,
        subroutes: Vec<String>,
        css_selector: &str,
        delay_milis: u64,
        headless: bool,
    ) -> (r: Result<MultipageSpider, SpiderError>)
        ensures
            match r {
                Ok(spider) => selector_parses(css_selector@) && spider@ == (MultipageSpiderView {
                    name: name@,
                    base_url: base_url@,
                    subroutes: texts_of(subroutes@),
                    css_locator: css_selector@,
                    delay_milis,
                    headless,
                }),
                Err(e) => !selector_parses(css_selector@) && e@ == SpiderErrorView::InvalidSelector(
                    css_selector@,
                ),
            },
    {
        if !selector_is_valid(css_selector) {
            return Err(SpiderError::InvalidSelector(String::from_str(css_selector)));
        }
        Ok(
            MultipageSpider {
                name: String::from_str(name),
                base_url: String::from_str(base_url),
                subroutes,
                css_locator: String::from_str(css_selector),
                delay_milis,
                headless,
            },
        )
    }

    /// The spider that the settings of one site describe, with the delay
    /// that all sites share.
    pub fn from_settings(settings: &Settings, spider_settings: MultipageSpiderSettings) -> (r: Result<
        MultipageSpider,
        SpiderError,
    >)
        ensures
            match r {
                Ok(spider) => selector_parses(spider_settings.selector@) && spider@ == (
                MultipageSpiderView {
                    name: spider_settings.name@,
                    base_url: spider_settings.base_url@,
                    subroutes: texts_of(spider_settings.subroutes@),
                    css_locator: spider_settings.selector@,
                    delay_milis: settings.delay_milis,
                    headless: settings.headless,
                }),
                Err(e) => !selector_parses(spider_settings.selector@) && e@
                    == SpiderErrorView::InvalidSelector(spider_settings.selector@),
            },
    {
        MultipageSpider::new(
            spider_settings.name.as_str(),
            spider_settings.base_url.as_str(),
            spider_settings.subroutes,
            spider_settings.selector.as_str(),
            settings.delay_milis,
            settings.headless,
        )
    }

    pub fn name(&self) -> (r: &str)
        ensures
            r@ == self@.name,
    {
        self.name.as_str()
    }

    pub fn base_url(&self) -> (r: &str)
        ensures
            r@ == self@.base_url,
    {
        self.base_url.as_str()
    }

    pub fn subroutes(&self) -> (r: &[String])
        ensures
            texts_of(r@) == self@.subroutes,
    {
        self.subroutes.as_slice()
    }

    /// The CSS selector that tells which nodes are products.
    pub fn css_locator(&self) -> (r: &str)
        ensures
            r@ == self@.css_locator,
            selector_parses(r@),
    {
        proof {
            use_type_invariant(self);
        }
        self.css_locator.as_str()
    }

    /// Delay to scrap between subroutes, in milliseconds.
    pub fn delay(&self) -> (r: u64)
        ensures
            r == self@.delay_milis,
    {
        self.delay_milis
    }

    pub fn headless(&self) -> (r: bool)
        ensures
            r == self@.headless,
    {
        self.headless
    }

    /// The name, the base address and the number of subroutes, in one line.
    pub fn describe(&self) -> (r: String)
        ensures
            r@ == spider_description(self@.name, self@.base_url, self@.subroutes.len()),
    {
        let mut out = self.name.clone();
        out.append(" (url=");
        out.append(self.base_url.as_str());
        out.append(", subroutes=");
        push_decimal(&mut out, self.subroutes.len());
        out.append(")");
        out
    }

    /// The pages to fetch, in the order of the subroutes: the first at
    /// once, each later one after the delay.
    pub fn requests(&self) -> (r: Vec<SubrouteRequest>)
        ensures
            r@.len() == self@.subroutes.len(),
            forall|i: int|
                0 <= i < r@.len() ==> (#[trigger] r@[i]).url@ == subroute_address(
                    self@.base_url,
                    self@.subroutes[i],
                ),
            forall|i: int|
                0 <= i < r@.len() ==> (#[trigger] r@[i]).delay_milis == if i == 0 {
                    0
                } else {
                    self@.delay_milis
                },
    {
        subroute_requests(self.base_url.as_str(), self.subroutes.as_slice(), self.delay_milis)
    }

    /// The records of the page at `url`, read off its markup: one for each
    /// node that matches the selector and gives an item by what it says of
    /// itself, without those whose identity key came before. An item
    /// without a category of its own has `url` as its category.
    pub fn scrape_markup(&self, document: &str, url: &str) -> (r: Vec<MultipageItem>)
        ensures
            r@.map_values(|i: MultipageItem| i@) == listed_records(
                selected_nodes(document@, self@.css_locator),
                url@,
                children_found(document@, self@.css_locator, ".Showcase__content"@),
                children_found(document@, self@.css_locator, ".Showcase__brand a"@),
                children_found(document@, self@.css_locator, ".Showcase__priceBox__title"@),
                children_found(document@, self@.css_locator, ".Showcase__link"@),
                children_found(document@, self@.css_locator, ".Showcase__salePrice"@),
            ),
            distinct_identities(r@),
    {
        proof {
            use_type_invariant(self);
        }
        let css = self.css_locator.as_str();
        match select_nodes(document, css) {
            Some(nodes) => {
                let children = ShowcaseChildren {
                    content: find_children(document, css, ".Showcase__content"),
                    brand: find_children(document, css, ".Showcase__brand a"),
                    price_title: find_children(document, css, ".Showcase__priceBox__title"),
                    link: find_children(document, css, ".Showcase__link"),
                    sale_price: find_children(document, css, ".Showcase__salePrice"),
                };
                MultipageItem::from_nodes(&nodes, url, &children)
            },
            None => Vec::new(),
        }
    }
}

impl Spider for MultipageSpider {
    type Item = MultipageItem;

    open spec fn site_name(&self) -> Seq<char> {
        self@.name
    }

    open spec fn base_address(&self) -> Seq<char> {
        self@.base_url
    }

    open spec fn subroute_texts(&self) -> Seq<Seq<char>> {
        self@.subroutes
    }

    open spec fn delay_between(&self) -> u64 {
        self@.delay_milis
    }

    fn name(&self) -> &str {
        self.name()
    }

    fn base_url(&self) -> (r: &str) {
        self.base_url()
    }

    fn subroutes(&self) -> (r: &[String]) {
        self.subroutes()
    }

    fn delay(&self) -> (r: u64) {
        self.delay()
    }

    fn scrape_document(&self, document: &str, url: &str) -> (r: Vec<MultipageItem>)
        ensures
            r@.map_values(|i: MultipageItem| i@) == listed_records(
                selected_nodes(document@, self@.css_locator),
                url@,
                children_found(document@, self@.css_locator, ".Showcase__content"@),
                children_found(document@, self@.css_locator, ".Showcase__brand a"@),
                children_found(document@, self@.css_locator, ".Showcase__priceBox__title"@),
                children_found(document@, self@.css_locator, ".Showcase__link"@),
                children_found(document@, self@.css_locator, ".Showcase__salePrice"@),
            ),
    {
        MultipageSpider::scrape_markup(self, document, url)
    }
}

} // verus!
