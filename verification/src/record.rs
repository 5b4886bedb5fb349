//! Flattening an aggregate entry into one flat record per title, with a
//! fixed default for every absent store slot, ready for serialization by a
//! downstream writer.

use vstd::prelude::*;
use crate::aggregate::{GameData, StoreData};

verus! {

/// One title's flat record: the name, then price, discount and link for
/// each store, with `0`, `0` and `"-"` standing for an absent slot.
pub struct GameRecord {
    pub name: String,
    pub g2a_price: u64,
    pub g2a_sale: u32,
    pub g2a_link: String,
    pub kinguin_price: u64,
    pub kinguin_sale: u32,
    pub kinguin_link: String,
    pub cdkeys_price: u64,
    pub cdkeys_sale: u32,
    pub cdkeys_link: String,
}

/// A slot's price, or the absent-slot default.
pub open spec fn price_or_default(o: Option<StoreData>) -> u64 {
    match o {
        Some(d) => d.price,
        None => 0,
    }
}

/// A slot's discount, or the absent-slot default.
pub open spec fn sale_or_default(o: Option<StoreData>) -> u32 {
    match o {
        Some(d) => d.sale,
        None => 0,
    }
}

/// A slot's link, or the absent-slot marker.
pub open spec fn link_or_default(o: Option<StoreData>) -> Seq<char> {
    match o {
        Some(d) => d.link@,
        None => "-"@,
    }
}

fn flat_price(o: &Option<StoreData>) -> (r: u64)
    ensures
        r == price_or_default(*o),
{
    match o {
        Some(d) => d.price,
        None => 0,
    }
}

fn flat_sale(o: &Option<StoreData>) -> (r: u32)
    ensures
        r == sale_or_default(*o),
{
    match o {
        Some(d) => d.sale,
        None => 0,
    }
}

fn flat_link(o: &Option<StoreData>) -> (r: String)
    ensures
        r@ == link_or_default(*o),
{
    match o {
        Some(d) => d.link.clone(),
        None => String::from_str("-"),
    }
}

impl GameRecord {
    /// Flatten one entry under its title.
    pub fn from(name: &str, data: &GameData) -> (r: GameRecord)
        ensures
            r.name@ == name@,
            r.g2a_price == price_or_default(data.g2a),
            r.g2a_sale == sale_or_default(data.g2a),
            r.g2a_link@ == link_or_default(data.g2a),
            r.kinguin_price == price_or_default(data.kinguin),
            r.kinguin_sale == sale_or_default(data.kinguin),
            r.kinguin_link@ == link_or_default(data.kinguin),
            r.cdkeys_price == price_or_default(data.cdkeys),
            r.cdkeys_sale == sale_or_default(data.cdkeys),
            r.cdkeys_link@ == link_or_default(data.cdkeys),
    {
        GameRecord {
            name: name.to_owned(),
            g2a_price: flat_price(&data.g2a),
            g2a_sale: flat_sale(&data.g2a),
            g2a_link: flat_link(&data.g2a),
            kinguin_price: flat_price(&data.kinguin),
            kinguin_sale: flat_sale(&data.kinguin),
            kinguin_link: flat_link(&data.kinguin),
            cdkeys_price: flat_price(&data.cdkeys),
            cdkeys_sale: flat_sale(&data.cdkeys),
            cdkeys_link: flat_link(&data.cdkeys),
        }
    }
}

} // verus!
