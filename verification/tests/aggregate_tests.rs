use keydeals::aggregate::{AggregateMap, GameData, StoreData};
use keydeals::catalog::Store;
use keydeals::record::GameRecord;

fn rec(price: u64, sale: u32, link: &str) -> StoreData {
    StoreData {
        price,
        sale,
        link: String::from(link),
    }
}

#[test]
fn upsert_creates_entry_with_one_slot() {
    let mut map = AggregateMap::new();
    map.upsert(Store::G2a, String::from("Game X"), rec(1999, 50, "/x"));
    assert_eq!(map.len(), 1);
    let entry = map.get(&String::from("Game X")).unwrap();
    let d = entry.g2a.as_ref().unwrap();
    assert_eq!(d.price, 1999);
    assert_eq!(d.sale, 50);
    assert_eq!(d.link, "/x");
    assert!(entry.kinguin.is_none());
    assert!(entry.cdkeys.is_none());
}

#[test]
fn reupsert_same_store_keeps_latest_only() {
    let mut map = AggregateMap::new();
    map.upsert(Store::Kinguin, String::from("Game X"), rec(1000, 40, "/a"));
    map.upsert(Store::G2a, String::from("Game X"), rec(500, 35, "/g"));
    map.upsert(Store::Kinguin, String::from("Game X"), rec(900, 45, "/b"));
    assert_eq!(map.len(), 1);
    let entry = map.get(&String::from("Game X")).unwrap();
    let k = entry.kinguin.as_ref().unwrap();
    assert_eq!(k.price, 900);
    assert_eq!(k.sale, 45);
    assert_eq!(k.link, "/b");
    // The other store's slot is unaffected by either sighting.
    let g = entry.g2a.as_ref().unwrap();
    assert_eq!(g.price, 500);
    assert_eq!(g.sale, 35);
    assert_eq!(g.link, "/g");
    assert!(entry.cdkeys.is_none());
}

#[test]
fn upsert_order_across_stores_is_immaterial() {
    let mut ab = AggregateMap::new();
    ab.upsert(Store::G2a, String::from("Game X"), rec(1, 31, "/1"));
    ab.upsert(Store::Cdkeys, String::from("Game X"), rec(2, 32, "/2"));
    ab.upsert(Store::Cdkeys, String::from("Game Y"), rec(3, 33, "/3"));
    let mut ba = AggregateMap::new();
    ba.upsert(Store::Cdkeys, String::from("Game X"), rec(2, 32, "/2"));
    ba.upsert(Store::Cdkeys, String::from("Game Y"), rec(3, 33, "/3"));
    ba.upsert(Store::G2a, String::from("Game X"), rec(1, 31, "/1"));
    assert_eq!(ab.len(), 2);
    assert_eq!(ba.len(), 2);
    for name in ["Game X", "Game Y"] {
        let x = ab.get(&String::from(name)).unwrap();
        let y = ba.get(&String::from(name)).unwrap();
        assert_eq!(
            x.g2a.as_ref().map(|d| (d.price, d.sale, d.link.clone())),
            y.g2a.as_ref().map(|d| (d.price, d.sale, d.link.clone()))
        );
        assert_eq!(
            x.kinguin.as_ref().map(|d| (d.price, d.sale, d.link.clone())),
            y.kinguin.as_ref().map(|d| (d.price, d.sale, d.link.clone()))
        );
        assert_eq!(
            x.cdkeys.as_ref().map(|d| (d.price, d.sale, d.link.clone())),
            y.cdkeys.as_ref().map(|d| (d.price, d.sale, d.link.clone()))
        );
    }
}

#[test]
fn titles_match_exactly() {
    let mut map = AggregateMap::new();
    map.upsert(Store::G2a, String::from("Game X"), rec(1, 40, "/1"));
    map.upsert(Store::Kinguin, String::from("Game X "), rec(2, 41, "/2"));
    assert_eq!(map.len(), 2);
    assert!(map.get(&String::from("Game X")).unwrap().kinguin.is_none());
    assert!(map.get(&String::from("Game X ")).unwrap().g2a.is_none());
}

#[test]
fn absent_title_is_none() {
    let map = AggregateMap::new();
    assert!(map.get(&String::from("Game X")).is_none());
    assert_eq!(map.len(), 0);
}

#[test]
fn flat_record_defaults_for_absent_slots() {
    let mut data = GameData::new();
    data.kinguin = Some(rec(1099, 42, "/k"));
    let r = GameRecord::from("Game X", &data);
    assert_eq!(r.name, "Game X");
    assert_eq!(r.g2a_price, 0);
    assert_eq!(r.g2a_sale, 0);
    assert_eq!(r.g2a_link, "-");
    assert_eq!(r.kinguin_price, 1099);
    assert_eq!(r.kinguin_sale, 42);
    assert_eq!(r.kinguin_link, "/k");
    assert_eq!(r.cdkeys_price, 0);
    assert_eq!(r.cdkeys_sale, 0);
    assert_eq!(r.cdkeys_link, "-");
}
