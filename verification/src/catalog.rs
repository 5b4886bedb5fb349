//! The closed genre set and each storefront's own category code for it.

use vstd::prelude::*;

verus! {

/// The game genres the engine supports; chosen once per run.
#[derive(Clone, Copy, PartialEq, Eq, Structural, Debug)]
pub enum Genre {
    Action,
    Adventure,
    Rpg,
    Strategy,
    Horror,
    Puzzle,
    Casual,
}

/// The three storefronts the engine knows how to scrape.
#[derive(Clone, Copy, PartialEq, Eq, Structural, Debug)]
pub enum Store {
    G2a,
    Kinguin,
    Cdkeys,
}

/// The category code the given store uses for the given genre.
pub open spec fn spec_genre_code(store: Store, genre: Genre) -> Seq<char> {
    match store {
        Store::G2a => match genre {
            Genre::Action => "action-c2699"@,
            Genre::Adventure => "adventure-c1545"@,
            Genre::Rpg => "rpg-c1550"@,
            Genre::Strategy => "strategy-c1551"@,
            Genre::Horror => "horror-c1543"@,
            Genre::Puzzle => "puzzle-c1542"@,
            Genre::Casual => "casual-c2994"@,
        },
        Store::Kinguin => match genre {
            Genre::Action => "1"@,
            Genre::Adventure => "2"@,
            Genre::Rpg => "4"@,
            Genre::Strategy => "3"@,
            Genre::Horror => "28"@,
            Genre::Puzzle => "20"@,
            Genre::Casual => "19"@,
        },
        Store::Cdkeys => match genre {
            Genre::Action => "Action"@,
            Genre::Adventure => "Adventure"@,
            Genre::Rpg => "RPG"@,
            Genre::Strategy => "Strategy"@,
            Genre::Horror => "Horror"@,
            Genre::Puzzle => "Puzzle"@,
            Genre::Casual => "Casual"@,
        },
    }
}

/// Look up a store's category code for a genre. Total: every genre has a
/// code for every store, so there is no error path.
pub fn genre_code(store: Store, genre: Genre) -> (r: &'static str)
    ensures
        r@ == spec_genre_code(store, genre),
{
    match store {
        Store::G2a => match genre {
            Genre::Action => "action-c2699",
            Genre::Adventure => "adventure-c1545",
            Genre::Rpg => "rpg-c1550",
            Genre::Strategy => "strategy-c1551",
            Genre::Horror => "horror-c1543",
            Genre::Puzzle => "puzzle-c1542",
            Genre::Casual => "casual-c2994",
        },
        Store::Kinguin => match genre {
            Genre::Action => "1",
            Genre::Adventure => "2",
            Genre::Rpg => "4",
            Genre::Strategy => "3",
            Genre::Horror => "28",
            Genre::Puzzle => "20",
            Genre::Casual => "19",
        },
        Store::Cdkeys => match genre {
            Genre::Action => "Action",
            Genre::Adventure => "Adventure",
            Genre::Rpg => "RPG",
            Genre::Strategy => "Strategy",
            Genre::Horror => "Horror",
            Genre::Puzzle => "Puzzle",
            Genre::Casual => "Casual",
        },
    }
}

/// The genre a zero-based menu index selects; anything out of range falls
/// back to `Action`.
pub open spec fn spec_genre_from_index(index: u8) -> Genre {
    match index {
        1u8 => Genre::Adventure,
        2u8 => Genre::Rpg,
        3u8 => Genre::Strategy,
        4u8 => Genre::Horror,
        5u8 => Genre::Puzzle,
        6u8 => Genre::Casual,
        _ => Genre::Action,
    }
}

/// Select a genre by menu index, defaulting to `Action` out of range.
pub fn get_genre_from_index(index: u8) -> (r: Genre)
    ensures
        r == spec_genre_from_index(index),
{
    match index {
        1u8 => Genre::Adventure,
        2u8 => Genre::Rpg,
        3u8 => Genre::Strategy,
        4u8 => Genre::Horror,
        5u8 => Genre::Puzzle,
        6u8 => Genre::Casual,
        _ => Genre::Action,
    }
}

/// Every store's scraper walks this many listing pages per run.
pub const STORE_PAGES: u8 = 3;

} // verus!
