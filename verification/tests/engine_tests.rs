use keydeals::aggregate::AggregateMap;
use keydeals::catalog::{Genre, Store};
use keydeals::engine::{
    scrape, scrape_page, scrape_store, BadgeText, Filter, PageOutcome, RawItem, ScrapeOutcome,
    SessionInitError, SessionPages, StoreError,
};

fn filter(min_sale: u32) -> Filter {
    Filter {
        price_min: 0,
        price_max: 15000,
        min_sale,
        genre: Genre::Action,
    }
}

fn item(badge: BadgeText, name: &str, link: &str, price_text: &str) -> RawItem {
    RawItem {
        badge,
        name: Some(String::from(name)),
        link: Some(String::from(link)),
        price_text: Some(String::from(price_text)),
    }
}

fn badge(text: &str) -> BadgeText {
    BadgeText::Text(String::from(text))
}

#[test]
fn kept_item_lands_in_store_slot() {
    // One store-A item over the threshold: its exact parsed record appears
    // in that store's slot and nowhere else.
    let items = vec![item(badge("50% off"), "Game X", "/x", "19.99 PLN")];
    let mut map = AggregateMap::new();
    let r = scrape_page(Store::G2a, &filter(30), &items, &mut map);
    assert_eq!(r, Ok(()));
    assert_eq!(map.len(), 1);
    let entry = map.get(&String::from("Game X")).unwrap();
    let d = entry.g2a.as_ref().unwrap();
    assert_eq!(d.price, 1999);
    assert_eq!(d.sale, 50);
    assert_eq!(d.link, "/x");
    assert!(entry.kinguin.is_none());
    assert!(entry.cdkeys.is_none());
}

#[test]
fn filtered_item_leaves_no_trace() {
    // The same item under the threshold contributes nothing at all.
    let items = vec![item(badge("10% off"), "Game X", "/x", "19.99 PLN")];
    let mut map = AggregateMap::new();
    let r = scrape_page(Store::G2a, &filter(30), &items, &mut map);
    assert_eq!(r, Ok(()));
    assert_eq!(map.len(), 0);
    assert!(map.get(&String::from("Game X")).is_none());
}

#[test]
fn absent_badge_passes_zero_threshold_only() {
    let items = vec![item(BadgeText::Absent, "Game X", "/x", "5.00 PLN")];
    let mut map = AggregateMap::new();
    let r = scrape_page(Store::G2a, &filter(0), &items, &mut map);
    assert_eq!(r, Ok(()));
    assert_eq!(map.get(&String::from("Game X")).unwrap().g2a.as_ref().unwrap().sale, 0);

    let items = vec![item(BadgeText::Absent, "Game Y", "/y", "5.00 PLN")];
    let mut map = AggregateMap::new();
    let r = scrape_page(Store::G2a, &filter(30), &items, &mut map);
    assert_eq!(r, Ok(()));
    assert_eq!(map.len(), 0);
}

#[test]
fn title_variants_stay_separate_entries() {
    // Store A sees "Game X", store B a trailing-space variant: two entries.
    let mut map = AggregateMap::new();
    let a = vec![item(badge("40% off"), "Game X", "/a", "10.00 PLN")];
    let b = vec![item(badge("40% off"), "Game X ", "/b", "9.00 EUR")];
    assert_eq!(scrape_page(Store::G2a, &filter(30), &a, &mut map), Ok(()));
    assert_eq!(scrape_page(Store::Kinguin, &filter(30), &b, &mut map), Ok(()));
    assert_eq!(map.len(), 2);
    let x = map.get(&String::from("Game X")).unwrap();
    assert_eq!(x.g2a.as_ref().unwrap().sale, 40);
    assert!(x.kinguin.is_none());
    let y = map.get(&String::from("Game X ")).unwrap();
    assert_eq!(y.kinguin.as_ref().unwrap().sale, 40);
    assert!(y.g2a.is_none());
}

#[test]
fn unreadable_name_aborts_page() {
    let broken = RawItem {
        badge: badge("55% off"),
        name: None,
        link: Some(String::from("/x")),
        price_text: Some(String::from("1.00 PLN")),
    };
    let after = item(badge("60% off"), "Game Z", "/z", "2.00 PLN");
    let items = vec![broken, after];
    let mut map = AggregateMap::new();
    let r = scrape_page(Store::G2a, &filter(30), &items, &mut map);
    assert_eq!(r, Err(StoreError::Extract));
    // The failing item aborts the rest of the page: nothing was written.
    assert_eq!(map.len(), 0);
}

#[test]
fn skipped_item_never_demands_its_fields() {
    // A below-threshold item is skipped before its required fields are
    // read, so their being unreadable does not fail the page.
    let lazy = RawItem {
        badge: badge("10% off"),
        name: None,
        link: None,
        price_text: None,
    };
    let items = vec![lazy, item(badge("44% off"), "Game K", "/k", "3.00 PLN")];
    let mut map = AggregateMap::new();
    let r = scrape_page(Store::G2a, &filter(30), &items, &mut map);
    assert_eq!(r, Ok(()));
    assert_eq!(map.len(), 1);
    assert!(map.get(&String::from("Game K")).is_some());
}

#[test]
fn malformed_price_is_parse_error() {
    let items = vec![item(badge("50% off"), "Game X", "/x", "free")];
    let mut map = AggregateMap::new();
    let r = scrape_page(Store::G2a, &filter(30), &items, &mut map);
    assert_eq!(r, Err(StoreError::Parse));
}

#[test]
fn missing_link_is_extract_error() {
    let broken = RawItem {
        badge: badge("50% off"),
        name: Some(String::from("Game X")),
        link: None,
        price_text: Some(String::from("1.00 PLN")),
    };
    let items = vec![broken];
    let mut map = AggregateMap::new();
    let r = scrape_page(Store::G2a, &filter(30), &items, &mut map);
    assert_eq!(r, Err(StoreError::Extract));
}

#[test]
fn failed_navigation_aborts_remaining_pages() {
    let pages = vec![
        PageOutcome::NavFailed,
        PageOutcome::Items(vec![item(badge("50% off"), "Game X", "/x", "1.00 PLN")]),
    ];
    let mut map = AggregateMap::new();
    let r = scrape_store(Store::G2a, &filter(30), &pages, &mut map);
    assert_eq!(r, Err(StoreError::Navigation));
    assert_eq!(map.len(), 0);
}

#[test]
fn failed_query_reports_query_error() {
    let pages = vec![PageOutcome::QueryFailed];
    let mut map = AggregateMap::new();
    let r = scrape_store(Store::G2a, &filter(30), &pages, &mut map);
    assert_eq!(r, Err(StoreError::Query));
}

#[test]
fn pages_accumulate_until_failure() {
    let pages = vec![
        PageOutcome::Items(vec![item(badge("50% off"), "Game A", "/a", "1.00 PLN")]),
        PageOutcome::Items(vec![item(badge("60% off"), "Game B", "/b", "2.00 PLN")]),
        PageOutcome::NavFailed,
        PageOutcome::Items(vec![item(badge("70% off"), "Game C", "/c", "3.00 PLN")]),
    ];
    let mut map = AggregateMap::new();
    let r = scrape_store(Store::G2a, &filter(30), &pages, &mut map);
    assert_eq!(r, Err(StoreError::Navigation));
    assert_eq!(map.len(), 2);
    assert!(map.get(&String::from("Game A")).is_some());
    assert!(map.get(&String::from("Game B")).is_some());
    assert!(map.get(&String::from("Game C")).is_none());
}

#[test]
fn failed_session_open_aborts_whole_run() {
    let r = scrape(&filter(30), None);
    assert_eq!(r.map(|_| ()), Err(SessionInitError));
}

#[test]
fn store_failure_is_isolated_from_other_stores() {
    let session = SessionPages {
        g2a: vec![PageOutcome::NavFailed],
        kinguin: vec![PageOutcome::Items(vec![item(
            badge("45% off"),
            "Game X",
            "/k",
            "8.00 EUR",
        )])],
        cdkeys: vec![PageOutcome::Items(vec![item(
            badge("35% off"),
            "Game X",
            "/c",
            "GBP7.50",
        )])],
    };
    let out: ScrapeOutcome = scrape(&filter(30), Some(session)).unwrap();
    assert_eq!(out.g2a_result, Err(StoreError::Navigation));
    assert_eq!(out.kinguin_result, Ok(()));
    assert_eq!(out.cdkeys_result, Ok(()));
    assert_eq!(out.map.len(), 1);
    let entry = out.map.get(&String::from("Game X")).unwrap();
    assert!(entry.g2a.is_none());
    let k = entry.kinguin.as_ref().unwrap();
    assert_eq!((k.price, k.sale), (800, 45));
    assert_eq!(k.link, "/k");
    let c = entry.cdkeys.as_ref().unwrap();
    assert_eq!((c.price, c.sale), (750, 35));
    assert_eq!(c.link, "/c");
}

#[test]
fn empty_page_changes_nothing() {
    let items: Vec<RawItem> = vec![];
    let mut map = AggregateMap::new();
    map.upsert(
        Store::Cdkeys,
        String::from("Game X"),
        keydeals::aggregate::StoreData {
            price: 100,
            sale: 50,
            link: String::from("/x"),
        },
    );
    let r = scrape_page(Store::G2a, &filter(30), &items, &mut map);
    assert_eq!(r, Ok(()));
    assert_eq!(map.len(), 1);
    assert!(map.get(&String::from("Game X")).unwrap().cdkeys.is_some());
}

#[test]
fn all_three_stores_merge_into_one_entry() {
    let session = SessionPages {
        g2a: vec![PageOutcome::Items(vec![item(
            badge("50% off"),
            "Game X",
            "/g",
            "19.99 PLN",
        )])],
        kinguin: vec![PageOutcome::Items(vec![item(
            badge("45% off"),
            "Game X",
            "/k",
            "8.00 EUR",
        )])],
        cdkeys: vec![PageOutcome::Items(vec![item(
            badge("35% off"),
            "Game X",
            "/c",
            "GBP7.50",
        )])],
    };
    let out = scrape(&filter(30), Some(session)).unwrap();
    assert_eq!(out.g2a_result, Ok(()));
    assert_eq!(out.kinguin_result, Ok(()));
    assert_eq!(out.cdkeys_result, Ok(()));
    assert_eq!(out.map.len(), 1);
    let entry = out.map.get(&String::from("Game X")).unwrap();
    let g = entry.g2a.as_ref().unwrap();
    assert_eq!((g.price, g.sale), (1999, 50));
    assert_eq!(g.link, "/g");
    let k = entry.kinguin.as_ref().unwrap();
    assert_eq!((k.price, k.sale), (800, 45));
    let c = entry.cdkeys.as_ref().unwrap();
    assert_eq!((c.price, c.sale), (750, 35));
}

#[test]
fn rescraping_same_title_overwrites_store_slot() {
    let pages = vec![
        PageOutcome::Items(vec![
            item(badge("50% off"), "Game X", "/old", "10.00 PLN"),
            item(badge("60% off"), "Game X", "/new", "8.00 PLN"),
        ]),
    ];
    let mut map = AggregateMap::new();
    assert_eq!(scrape_store(Store::G2a, &filter(30), &pages, &mut map), Ok(()));
    assert_eq!(map.len(), 1);
    let d = map.get(&String::from("Game X")).unwrap();
    let g = d.g2a.as_ref().unwrap();
    assert_eq!((g.price, g.sale), (800, 60));
    assert_eq!(g.link, "/new");
}
