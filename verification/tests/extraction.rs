use peru_prices::attributes::AttributeMap;
use peru_prices::spiders::{
    add_to_map, dedup, InfiniteScrollingItem, MultipageItem, Price, ShowcaseChildren, SpiderError,
};

fn map_of(pairs: &[(&str, &str)]) -> AttributeMap {
    let mut map = AttributeMap::new();
    for (k, v) in pairs {
        map.insert(k.to_string(), v.to_string());
    }
    map
}

fn pairs_of(pairs: &[(&str, &str)]) -> Vec<(String, String)> {
    pairs.iter().map(|(k, v)| (k.to_string(), v.to_string())).collect()
}

#[test]
fn attribute_map_keeps_the_latest_value() {
    let mut map = AttributeMap::new();
    assert!(map.get("a").is_none());
    map.insert("a".to_string(), "1".to_string());
    map.insert("b".to_string(), "2".to_string());
    map.insert("a".to_string(), "3".to_string());
    assert_eq!(map.get("a").unwrap(), "3");
    assert_eq!(map.get_owned("b").unwrap(), "2");
    assert!(map.get("c").is_none());
}

#[test]
fn attribute_map_from_pairs() {
    let map = AttributeMap::from_pairs(&pairs_of(&[("k", "v"), ("k", "w"), ("x", "y")]));
    assert_eq!(map.get("k").unwrap(), "w");
    assert_eq!(map.get("x").unwrap(), "y");
}

#[test]
fn scrolling_item_with_every_field() {
    let item = InfiniteScrollingItem::try_from(map_of(&[
        ("data-id", "77"),
        ("data-brand", "Gloria"),
        ("data-uri", "/leche"),
        ("data-name", "Leche"),
        ("data-price", "S/. 1,234.50"),
        ("data-category", "lacteos"),
        ("class", "product-item"),
    ]))
    .unwrap();
    assert_eq!(item.id, "77");
    assert_eq!(item.brand.as_deref(), Some("Gloria"));
    assert_eq!(item.uri.as_deref(), Some("/leche"));
    assert_eq!(item.name.as_deref(), Some("Leche"));
    assert_eq!(item.price, Some(Price { negative: false, mantissa: 12345, scale: 1 }));
    assert_eq!(item.category.as_deref(), Some("lacteos"));
}

#[test]
fn scrolling_item_with_one_field() {
    let item =
        InfiniteScrollingItem::try_from(map_of(&[("data-id", "1"), ("data-name", "Pan")])).unwrap();
    assert_eq!(item.id, "1");
    assert_eq!(item.name.as_deref(), Some("Pan"));
    assert!(item.brand.is_none() && item.uri.is_none() && item.price.is_none());
    assert!(item.category.is_none());
}

#[test]
fn scrolling_node_with_identity_alone_is_no_product() {
    match InfiniteScrollingItem::try_from(map_of(&[("data-id", "1")])) {
        Err(SpiderError::NoDataExtracted(id)) => assert_eq!(id, "1"),
        other => panic!("unexpected {:?}", other),
    }
    assert!(matches!(
        InfiniteScrollingItem::try_from(map_of(&[("data-id", "1"), ("class", "x")])),
        Err(SpiderError::NoDataExtracted(_))
    ));
}

#[test]
fn scrolling_node_without_identity() {
    assert!(matches!(
        InfiniteScrollingItem::try_from(map_of(&[("data-name", "Pan"), ("data-price", "x")])),
        Err(SpiderError::MissingIdentity)
    ));
    assert!(matches!(
        InfiniteScrollingItem::try_from(map_of(&[])),
        Err(SpiderError::MissingIdentity)
    ));
}

#[test]
fn scrolling_node_with_bad_price() {
    match InfiniteScrollingItem::try_from(map_of(&[
        ("data-id", "1"),
        ("data-name", "Pan"),
        ("data-price", "gratis"),
    ])) {
        Err(SpiderError::PriceParseError(raw)) => assert_eq!(raw, "gratis"),
        other => panic!("unexpected {:?}", other),
    }
}

#[test]
fn listed_item_with_every_field() {
    let item = MultipageItem::try_from(map_of(&[
        ("data-sku", "A1"),
        ("title", "Arroz"),
        (".Showcase__brand a", "Costeno"),
        ("category", "https://site/abarrotes"),
        ("href", "/arroz"),
        ("data-price", "4.90"),
        (".Showcase__salePrice", "S/ 9.99"),
    ]))
    .unwrap();
    assert_eq!(item.sku, "A1");
    assert_eq!(item.name.as_deref(), Some("Arroz"));
    assert_eq!(item.brand.as_deref(), Some("Costeno"));
    assert_eq!(item.category.as_deref(), Some("https://site/abarrotes"));
    assert_eq!(item.uri.as_deref(), Some("/arroz"));
    assert_eq!(item.price, Some(Price { negative: false, mantissa: 49, scale: 1 }));
}

#[test]
fn listed_item_falls_back_to_sale_price() {
    let item =
        MultipageItem::try_from(map_of(&[("data-sku", "A1"), (".Showcase__salePrice", "S/ 9.99")]))
            .unwrap();
    assert_eq!(item.price, Some(Price { negative: false, mantissa: 999, scale: 2 }));
    assert!(item.name.is_none());
}

#[test]
fn listed_node_failures() {
    assert!(matches!(
        MultipageItem::try_from(map_of(&[("title", "Arroz")])),
        Err(SpiderError::MissingIdentity)
    ));
    match MultipageItem::try_from(map_of(&[("data-sku", "A1")])) {
        Err(SpiderError::NoDataExtracted(sku)) => assert_eq!(sku, "A1"),
        other => panic!("unexpected {:?}", other),
    }
    match MultipageItem::try_from(map_of(&[("data-sku", "A1"), ("data-price", "abc")])) {
        Err(SpiderError::PriceParseError(raw)) => assert_eq!(raw, "abc"),
        other => panic!("unexpected {:?}", other),
    }
}

fn scrolling(id: &str, name: &str) -> InfiniteScrollingItem {
    InfiniteScrollingItem {
        id: id.to_string(),
        brand: None,
        uri: None,
        name: Some(name.to_string()),
        price: None,
        category: None,
    }
}

#[test]
fn dedup_keeps_the_first_of_each_identity() {
    let out = dedup(vec![
        scrolling("1", "a"),
        scrolling("2", "b"),
        scrolling("1", "c"),
        scrolling("3", "d"),
        scrolling("2", "e"),
    ]);
    let seen: Vec<(&str, &str)> =
        out.iter().map(|i| (i.id.as_str(), i.name.as_deref().unwrap())).collect();
    assert_eq!(seen, vec![("1", "a"), ("2", "b"), ("3", "d")]);
}

#[test]
fn dedup_of_nothing_and_of_distinct_records() {
    assert!(dedup(Vec::<InfiniteScrollingItem>::new()).is_empty());
    let out = dedup(vec![scrolling("1", "a"), scrolling("2", "b")]);
    assert_eq!(out.len(), 2);
}

#[test]
fn scrolling_records_from_nodes() {
    let nodes = vec![
        pairs_of(&[("data-id", "1"), ("data-name", "a")]),
        pairs_of(&[("data-id", "2")]),
        pairs_of(&[("data-name", "no id")]),
        pairs_of(&[("data-id", "1"), ("data-name", "again")]),
        pairs_of(&[("data-id", "3"), ("data-price", "S/. 2.50")]),
    ];
    let out = InfiniteScrollingItem::from_nodes(&nodes);
    let ids: Vec<&str> = out.iter().map(|i| i.id.as_str()).collect();
    assert_eq!(ids, vec!["1", "3"]);
    assert_eq!(out[0].name.as_deref(), Some("a"));
    assert_eq!(out[1].price, Some(Price { negative: false, mantissa: 25, scale: 1 }));
}

#[test]
fn child_adds_text_and_named_attributes() {
    let mut map = map_of(&[("data-sku", "A1")]);
    let matches = vec![
        (pairs_of(&[("title", "Arroz extra"), ("class", "c")]), vec!["  uno ".to_string(), "dos".to_string()]),
        (pairs_of(&[("title", "second")]), vec!["ignored".to_string()]),
    ];
    add_to_map(&mut map, &matches, ".Showcase__content", false, &vec!["title".to_string(), "rel".to_string()]);
    assert_eq!(map.get(".Showcase__content").unwrap(), "uno");
    assert_eq!(map.get("title").unwrap(), "Arroz extra");
    assert!(map.get("rel").is_none());
    assert!(map.get("class").is_none());
    add_to_map(&mut map, &matches, ".all", true, &vec![]);
    assert_eq!(map.get(".all").unwrap(), "uno dos");
    add_to_map(&mut map, &vec![], ".none", true, &vec!["title".to_string()]);
    assert!(map.get(".none").is_none());
    add_to_map(&mut map, &vec![(vec![], vec![])], ".empty", false, &vec![]);
    assert_eq!(map.get(".empty").unwrap(), "");
}

#[test]
fn listed_records_from_nodes() {
    let nodes = vec![
        pairs_of(&[("data-sku", "A1")]),
        pairs_of(&[("class", "no sku")]),
        pairs_of(&[("data-sku", "A1"), ("title", "again")]),
        pairs_of(&[("data-sku", "B2")]),
        pairs_of(&[("data-sku", "C3")]),
        pairs_of(&[("data-sku", "D4"), ("category", "propia")]),
    ];
    let none = || vec![vec![], vec![], vec![], vec![], vec![], vec![]];
    let children = ShowcaseChildren {
        content: vec![
            vec![(pairs_of(&[("title", "Arroz")]), vec!["Arroz".to_string()])],
            vec![],
            vec![],
            vec![],
        ],
        brand: vec![vec![(vec![], vec![" Costeno ".to_string()])]],
        price_title: none(),
        link: vec![vec![(pairs_of(&[("href", "/arroz")]), vec![])], vec![], vec![], vec![]],
        sale_price: vec![
            vec![(pairs_of(&[("data-price", "4.90")]), vec!["S/ 4.90".to_string()])],
            vec![],
            vec![],
            vec![(vec![], vec!["S/ 1,000".to_string()])],
        ],
    };
    let out = MultipageItem::from_nodes(&nodes, "https://site/abarrotes", &children);
    let skus: Vec<&str> = out.iter().map(|i| i.sku.as_str()).collect();
    assert_eq!(skus, vec!["A1", "B2", "D4"]);
    assert_eq!(out[0].name.as_deref(), Some("Arroz"));
    assert_eq!(out[0].brand.as_deref(), Some("Costeno"));
    assert_eq!(out[0].uri.as_deref(), Some("/arroz"));
    assert_eq!(out[0].category.as_deref(), Some("https://site/abarrotes"));
    assert_eq!(out[0].price, Some(Price { negative: false, mantissa: 49, scale: 1 }));
    assert_eq!(out[1].price, Some(Price { negative: false, mantissa: 1000, scale: 0 }));
    assert_eq!(out[1].category.as_deref(), Some("https://site/abarrotes"));
    assert!(out[1].name.is_none());
    assert_eq!(out[2].category.as_deref(), Some("propia"));
}

#[test]
fn listed_node_with_identity_alone_is_no_product() {
    let children = ShowcaseChildren {
        content: vec![],
        brand: vec![],
        price_title: vec![],
        link: vec![],
        sale_price: vec![],
    };
    let nodes = vec![pairs_of(&[("data-sku", "1")])];
    assert!(MultipageItem::from_nodes(&nodes, "https://site/page", &children).is_empty());
    let nodes = vec![
        pairs_of(&[("data-sku", "1"), ("class", "Showcase")]),
        pairs_of(&[("data-sku", "2"), ("href", "/dos")]),
    ];
    let out = MultipageItem::from_nodes(&nodes, "https://site/page", &children);
    assert_eq!(out.len(), 1);
    assert_eq!(out[0].sku, "2");
    assert_eq!(out[0].category.as_deref(), Some("https://site/page"));
}
