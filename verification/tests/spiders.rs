use peru_prices::configuration::{
    InfiniteScrollingSettings, InfiniteScrollingSpiderSettings, MultipageSpiderSettings, Settings,
};
use peru_prices::spiders::infinite_scrolling::scrolls_until_stable;
use peru_prices::spiders::{
    scrape_all, subroute_requests, subroute_url, InfiniteScrollingItem, InfiniteScrollingSpider,
    MultipageSpider, Price, ScrollPoller, SpiderError,
};

fn settings() -> Settings {
    Settings {
        out_path: "out".to_string(),
        headless: true,
        delay_milis: 250,
        spiders_buffer_size: 4,
        crawlers_buffer_size: 2,
        infinite_scrolling: InfiniteScrollingSettings { scroll_delay_milis: 900, scroll_checks: 3 },
        metro: site("metro"),
        wong: site("wong"),
        plaza_vea: MultipageSpiderSettings {
            name: "plaza_vea".to_string(),
            base_url: "https://plazavea.example".to_string(),
            subroutes: vec!["abarrotes".to_string()],
            selector: ".Showcase".to_string(),
        },
    }
}

fn site(name: &str) -> InfiniteScrollingSpiderSettings {
    InfiniteScrollingSpiderSettings {
        name: name.to_string(),
        base_url: format!("https://{}.example", name),
        subroutes: vec!["lacteos".to_string(), "carnes".to_string()],
        selector: ".product-item".to_string(),
    }
}

fn scrolling_spider() -> InfiniteScrollingSpider {
    InfiniteScrollingSpider::from_settings(site("metro"), &settings()).unwrap()
}

fn item(id: &str) -> InfiniteScrollingItem {
    InfiniteScrollingItem {
        id: id.to_string(),
        brand: Some("b".to_string()),
        uri: None,
        name: None,
        price: None,
        category: None,
    }
}

#[test]
fn poller_stops_after_two_unchanged_readings() {
    assert_eq!(scrolls_until_stable(100, &vec![150, 150, 150], 2), Some(3));
}

#[test]
fn poller_starts_again_after_a_change() {
    assert_eq!(scrolls_until_stable(100, &vec![150, 120, 150, 150, 150], 2), Some(5));
}

#[test]
fn poller_counts_consecutive_readings_only() {
    assert_eq!(scrolls_until_stable(100, &vec![100, 150, 150, 200, 200], 2), None);
    assert_eq!(scrolls_until_stable(100, &vec![100, 150, 150, 200, 200, 200], 2), Some(6));
}

#[test]
fn poller_without_convergence() {
    assert_eq!(scrolls_until_stable(0, &vec![1, 2, 3, 4, 5, 6], 1), None);
    assert_eq!(scrolls_until_stable(0, &vec![], 1), None);
}

#[test]
fn poller_with_small_thresholds() {
    assert_eq!(scrolls_until_stable(100, &vec![100], 1), Some(1));
    assert_eq!(scrolls_until_stable(100, &vec![150, 150], 1), Some(2));
    assert_eq!(scrolls_until_stable(100, &vec![150, 160], 0), Some(1));
}

#[test]
fn poller_state_follows_the_readings() {
    let mut poller = ScrollPoller::new(100, 2);
    assert_eq!(poller.last_height(), 100);
    assert_eq!(poller.stable_readings(), 0);
    assert!(!poller.is_settled());
    assert!(!poller.observe(150));
    assert_eq!((poller.last_height(), poller.stable_readings()), (150, 0));
    assert!(!poller.observe(150));
    assert_eq!(poller.stable_readings(), 1);
    assert!(!poller.step(Some(120)));
    assert_eq!((poller.last_height(), poller.stable_readings()), (120, 0));
    assert!(poller.step(None));
    assert_eq!((poller.last_height(), poller.stable_readings()), (120, 0));
    assert!(!poller.observe(120));
    assert!(poller.observe(120));
    assert!(poller.is_settled());
}

#[test]
fn failing_subroute_leaves_the_others() {
    let results = vec![
        Err(SpiderError::TimeoutError("A".to_string())),
        Ok(vec![item("1"), item("2"), item("3")]),
    ];
    let out = scrape_all(results);
    let ids: Vec<&str> = out.iter().map(|i| i.id.as_str()).collect();
    assert_eq!(ids, vec!["1", "2", "3"]);
}

#[test]
fn subroutes_are_merged_and_deduplicated() {
    let results = vec![
        Ok(vec![item("1"), item("2")]),
        Err(SpiderError::NavigationError("down".to_string())),
        Ok(vec![]),
        Ok(vec![item("2"), item("3"), item("1")]),
    ];
    let out = scrape_all(results);
    let ids: Vec<&str> = out.iter().map(|i| i.id.as_str()).collect();
    assert_eq!(ids, vec!["1", "2", "3"]);
    assert!(scrape_all::<InfiniteScrollingItem>(vec![]).is_empty());
    assert!(scrape_all::<InfiniteScrollingItem>(vec![Err(SpiderError::MissingIdentity)]).is_empty());
}

#[test]
fn first_subroute_is_not_delayed() {
    let subroutes = vec!["a".to_string(), "b/c".to_string(), "d".to_string()];
    let requests = subroute_requests("https://site", &subroutes, 300);
    let seen: Vec<(&str, u64)> = requests.iter().map(|r| (r.url.as_str(), r.delay_milis)).collect();
    assert_eq!(
        seen,
        vec![("https://site/a", 0), ("https://site/b/c", 300), ("https://site/d", 300)]
    );
    assert!(subroute_requests("https://site", &vec![], 300).is_empty());
    assert_eq!(subroute_url("https://site", "x"), "https://site/x");
}

#[test]
fn scrolling_spider_from_settings() {
    let spider = scrolling_spider();
    assert_eq!(spider.name(), "metro");
    assert_eq!(spider.base_url(), "https://metro.example");
    assert_eq!(spider.subroutes(), &["lacteos".to_string(), "carnes".to_string()]);
    assert_eq!(spider.css_locator(), ".product-item");
    assert_eq!(spider.delay(), 250);
    assert_eq!(spider.scroll_delay(), 900);
    assert_eq!(spider.scroll_checks(), 3);
    assert!(spider.headless());
    assert_eq!(spider.describe(), "metro (url=https://metro.example, subroutes=2)");
    let requests = spider.requests();
    assert_eq!(requests.len(), 2);
    assert_eq!(requests[1].url, "https://metro.example/carnes");
    assert_eq!(requests[1].delay_milis, 250);
    let poller = spider.poller(40);
    assert_eq!(poller.last_height(), 40);
    assert!(!poller.is_settled());
}

#[test]
fn spider_with_invalid_selector() {
    match InfiniteScrollingSpider::new("m", "u", vec![], "div[", 1, 1, 1, false) {
        Err(SpiderError::InvalidSelector(css)) => assert_eq!(css, "div["),
        other => panic!("unexpected {:?}", other),
    }
    match MultipageSpider::new("m", "u", vec![], "###", 1, false) {
        Err(SpiderError::InvalidSelector(css)) => assert_eq!(css, "###"),
        other => panic!("unexpected {:?}", other),
    }
}

#[test]
fn scrolling_spider_reads_markup() {
    let document = "<html><body>\
        <div class=\"product-item\" data-id=\"10\" data-name=\"Leche\" data-price=\"S/. 4.50\"></div>\
        <div class=\"other\" data-id=\"11\" data-name=\"Skipped\"></div>\
        <div class=\"product-item\" data-id=\"12\"></div>\
        <div class=\"product-item\" data-name=\"No id\"></div>\
        <div class=\"product-item\" data-id=\"10\" data-name=\"Again\"></div>\
        <div class=\"product-item\" data-id=\"13\" data-brand=\"Gloria\" data-price=\"caro\"></div>\
        <div class=\"product-item\" data-id=\"14\" data-category=\"lacteos\"></div>\
        </body></html>";
    let out = scrolling_spider().scrape_markup(document);
    let ids: Vec<&str> = out.iter().map(|i| i.id.as_str()).collect();
    assert_eq!(ids, vec!["10", "14"]);
    assert_eq!(out[0].name.as_deref(), Some("Leche"));
    assert_eq!(out[0].price, Some(Price { negative: false, mantissa: 45, scale: 1 }));
    assert_eq!(out[1].category.as_deref(), Some("lacteos"));
    assert!(scrolling_spider().scrape_markup("").is_empty());
}

#[test]
fn listing_spider_reads_markup() {
    let document = "<html><body>\
        <div class=\"Showcase\" data-sku=\"A1\">\
          <div class=\"Showcase__content\" title=\"Arroz Extra\">\
            <div class=\"Showcase__brand\"><a href=\"/marca\"> Costeno </a></div>\
            <a class=\"Showcase__link\" href=\"/arroz-extra\">ver</a>\
            <div class=\"Showcase__priceBox__title\"> Precio <b>online</b> </div>\
            <div class=\"Showcase__salePrice\" data-price=\"4.90\">S/ 4.90</div>\
          </div>\
        </div>\
        <div class=\"Showcase\" data-sku=\"B2\">\
          <div class=\"Showcase__salePrice\">S/ 1,250.00</div>\
        </div>\
        <div class=\"Showcase\">\
          <div class=\"Showcase__content\" title=\"No sku\"></div>\
        </div>\
        <div class=\"Showcase\" data-sku=\"A1\"></div>\
        <div class=\"Showcase\" data-sku=\"C3\"></div>\
        <div class=\"Showcase\" data-sku=\"D4\" category=\"propia\"></div>\
        </body></html>";
    let spider = MultipageSpider::from_settings(&settings(), settings().plaza_vea).unwrap();
    assert_eq!(spider.name(), "plaza_vea");
    assert_eq!(spider.delay(), 250);
    assert_eq!(spider.describe(), "plaza_vea (url=https://plazavea.example, subroutes=1)");
    let out = spider.scrape_markup(document, "https://plazavea.example/abarrotes");
    let skus: Vec<&str> = out.iter().map(|i| i.sku.as_str()).collect();
    assert_eq!(skus, vec!["A1", "B2", "D4"]);
    assert_eq!(out[2].category.as_deref(), Some("propia"));
    assert_eq!(out[1].category.as_deref(), Some("https://plazavea.example/abarrotes"));
    assert_eq!(out[0].name.as_deref(), Some("Arroz Extra"));
    assert_eq!(out[0].brand.as_deref(), Some("Costeno"));
    assert_eq!(out[0].uri.as_deref(), Some("/arroz-extra"));
    assert_eq!(out[0].category.as_deref(), Some("https://plazavea.example/abarrotes"));
    assert_eq!(out[0].price, Some(Price { negative: false, mantissa: 49, scale: 1 }));
    assert_eq!(out[1].sku, "B2");
    assert_eq!(out[1].price, Some(Price { negative: false, mantissa: 1250, scale: 0 }));
    assert!(out[1].name.is_none() && out[1].brand.is_none() && out[1].uri.is_none());
}

#[test]
fn spider_errors_in_words() {
    assert_eq!(SpiderError::InvalidSelector("a[".to_string()).message(), "Invalid selector: a[");
    assert_eq!(
        SpiderError::NoDataExtracted("7".to_string()).message(),
        "No data found to be extracted: 7"
    );
    assert_eq!(
        SpiderError::UnexpectedError("x".to_string()).message(),
        "Something went wrong."
    );
    assert_eq!(
        SpiderError::PriceParseError("abc".to_string()).message(),
        "Failed to parse price from: abc"
    );
    assert_eq!(SpiderError::MissingIdentity.message(), "No identity key found.");
    assert_eq!(
        SpiderError::NavigationError("refused".to_string()).message(),
        "Failed to read page: refused"
    );
    assert_eq!(
        SpiderError::TimeoutError("5 s".to_string()).message(),
        "Failed to wait for element: 5 s"
    );
    assert_eq!(
        SpiderError::SessionError("no driver".to_string()).message(),
        "Error connecting to webdriver: no driver"
    );
}

#[test]
fn metro_spider_reads_markup() {
    let spider = peru_prices::spiders::MetroSpider::new(
        "metro",
        "https://metro.example",
        vec!["a".to_string(), "b".to_string(), "c".to_string()],
        ".product-item",
        100,
        200,
        4,
    )
    .unwrap();
    assert_eq!(spider.name(), "metro");
    assert_eq!(spider.base_url(), "https://metro.example");
    assert_eq!(spider.selector(), ".product-item");
    assert_eq!((spider.delay(), spider.scroll_delay(), spider.scroll_checks()), (100, 200, 4));
    assert_eq!(spider.describe(), "MetroSpider (metro, subroutes=3)");
    assert_eq!(spider.requests()[2].url, "https://metro.example/c");
    let document = "<p class=\"product-item\" data-id=\"1\" data-name=\"Pan\"></p>\
        <p class=\"product-item\" data-id=\"1\" data-name=\"Pan otra vez\"></p>\
        <p class=\"product-item\" data-id=\"2\"></p>";
    let out = spider.scrape_markup(document);
    assert_eq!(out.len(), 1);
    assert_eq!(out[0].id, "1");
    assert_eq!(out[0].name.as_deref(), Some("Pan"));
    assert!(matches!(
        peru_prices::spiders::MetroSpider::new("m", "u", vec![], "", 1, 1, 1),
        Err(SpiderError::InvalidSelector(_))
    ));
}

#[test]
fn metro_item_follows_the_scrolling_rule() {
    let mut map = peru_prices::attributes::AttributeMap::new();
    map.insert("data-id".to_string(), "5".to_string());
    assert!(matches!(
        peru_prices::spiders::MetroItem::try_from(map),
        Err(SpiderError::NoDataExtracted(_))
    ));
    let mut map = peru_prices::attributes::AttributeMap::new();
    map.insert("data-id".to_string(), "5".to_string());
    map.insert("data-price".to_string(), "S/. 10".to_string());
    let item = peru_prices::spiders::MetroItem::try_from(map).unwrap();
    assert_eq!(item.price, Some(Price { negative: false, mantissa: 10, scale: 0 }));
}

#[test]
fn requests_of_any_spider() {
    let spider = scrolling_spider();
    let requests = peru_prices::spiders::requests_of(&spider);
    let seen: Vec<(&str, u64)> = requests.iter().map(|r| (r.url.as_str(), r.delay_milis)).collect();
    assert_eq!(
        seen,
        vec![("https://metro.example/lacteos", 0), ("https://metro.example/carnes", 250)]
    );
    let records = peru_prices::spiders::Spider::scrape_document(
        &spider,
        "<i class=\"product-item\" data-id=\"9\" data-uri=\"/x\"></i>",
        "https://metro.example/lacteos",
    );
    assert_eq!(records.len(), 1);
    assert_eq!(records[0].uri.as_deref(), Some("/x"));
}

#[test]
fn listing_node_with_identity_alone_gives_no_record() {
    let spider = MultipageSpider::new("p", "https://p.example", vec![], "article", 0, true).unwrap();
    let out = spider.scrape_markup(
        "<html><body><article data-sku=\"1\"></article></body></html>",
        "https://p.example/abarrotes",
    );
    assert!(out.is_empty());
    let out = spider.scrape_markup(
        "<html><body><article data-sku=\"1\"></article>\
         <article data-sku=\"2\" title=\"Pan\"></article></body></html>",
        "https://p.example/abarrotes",
    );
    assert_eq!(out.len(), 1);
    assert_eq!(out[0].sku, "2");
    assert_eq!(out[0].name.as_deref(), Some("Pan"));
    assert_eq!(out[0].category.as_deref(), Some("https://p.example/abarrotes"));
}

#[test]
fn scrolling_node_with_identity_alone_gives_no_record() {
    let spider =
        InfiniteScrollingSpider::new("m", "https://m.example", vec![], "article", 0, 0, 1, true)
            .unwrap();
    assert!(spider.scrape_markup("<article data-id=\"1\"></article>").is_empty());
}
