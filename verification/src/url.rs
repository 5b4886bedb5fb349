//! Listing-page URL construction, one scheme per storefront.
//!
//! Price bounds arrive in hundredths of the reference currency and are
//! converted to the store's native currency with a fixed per-store rate;
//! the genre is encoded through the catalog; the page parameter follows
//! each store's own numbering convention.

use vstd::prelude::*;
use crate::catalog::{Genre, Store, spec_genre_code, genre_code};
use crate::digits::{dec_digits, cents_string, dec_string, cents_to_string};

verus! {

/// Hundredths of a reference unit per whole native unit: the reference
/// price times this rate, divided by one hundred, is the native price.
pub open spec fn spec_rate(store: Store) -> nat {
    match store {
        Store::G2a => 27,
        Store::Kinguin => 23,
        Store::Cdkeys => 20,
    }
}

/// A reference amount converted into the store's native currency, both in
/// hundredths, rounding down.
pub open spec fn spec_converted(store: Store, cents: nat) -> nat {
    spec_rate(store) * cents / 100
}

/// Convert a reference amount (hundredths) to the store's currency.
pub fn converted(store: Store, cents: u64) -> (r: u64)
    ensures
        r == spec_converted(store, cents as nat),
{
    let rate: u64 = match store {
        Store::G2a => 27,
        Store::Kinguin => 23,
        Store::Cdkeys => 20,
    };
    let wide: u128 = (rate as u128) * (cents as u128) / 100;
    proof {
        assert(spec_rate(store) * (cents as nat) / 100 <= cents as nat) by (nonlinear_arith)
            requires
                spec_rate(store) <= 100,
        ;
    }
    wide as u64
}

/// How the store writes its minimum-price query value.
pub open spec fn spec_price_param(store: Store, cents: nat) -> Seq<char> {
    match store {
        Store::G2a => cents_string(spec_converted(store, cents)),
        Store::Kinguin => dec_digits(spec_converted(store, cents)),
        Store::Cdkeys => cents_string(spec_converted(store, cents)),
    }
}

/// The listing-page URL for one store, genre, price window and page.
/// `page` counts from 1; one store's API counts from 0, and the
/// subtraction happens here for that store alone.
pub open spec fn spec_build_url(
    store: Store,
    price_min: nat,
    price_max: nat,
    genre: Genre,
    page: nat,
) -> Seq<char> {
    match store {
        Store::G2a => "https://www.g2a.com/category/"@ + spec_genre_code(store, genre)
            + "?page="@ + dec_digits(page) + "&price%5Bmax%5D="@ + spec_price_param(
            store,
            price_max,
        ) + "&price%5Bmin%5D="@ + spec_price_param(store, price_min),
        Store::Kinguin => "https://www.kinguin.net/steam-games?platforms=2&genres="@
            + spec_genre_code(store, genre)
            + "&active=1&hideUnavailable=0&type=kinguin&priceFrom="@ + spec_price_param(
            store,
            price_min,
        ) + "&priceTo="@ + spec_price_param(store, price_max) + "&phrase=&page="@ + dec_digits(
            (page - 1) as nat,
        ) + "&size=50&sort=bestseller.score,DESC"@,
        Store::Cdkeys => "https://www.cdkeys.com/pc/games?genres="@ + spec_genre_code(
            store,
            genre,
        ) + "&p="@ + dec_digits(page) + "&price="@ + spec_price_param(store, price_min) + "-"@
            + spec_price_param(store, price_max),
    }
}

/// Build the listing-page URL for `store`, page `page` of the traversal
/// (counted from 1), for the given genre and price window (hundredths of
/// the reference currency).
pub fn build_url(store: Store, price_min: u64, price_max: u64, genre: Genre, page: u8) -> (r:
    String)
    requires
        page >= 1,
    ensures
        r@ == spec_build_url(store, price_min as nat, price_max as nat, genre, page as nat),
{
    let code = genre_code(store, genre);
    match store {
        Store::G2a => {
            let mut s = String::from_str("https://www.g2a.com/category/");
            s.append(code);
            s.append("?page=");
            s.append(dec_string(page as u64).as_str());
            s.append("&price%5Bmax%5D=");
            s.append(cents_to_string(converted(store, price_max)).as_str());
            s.append("&price%5Bmin%5D=");
            s.append(cents_to_string(converted(store, price_min)).as_str());
            proof {
                assert(s@ =~= spec_build_url(
                    store,
                    price_min as nat,
                    price_max as nat,
                    genre,
                    page as nat,
                ));
            }
            s
        },
        Store::Kinguin => {
            let mut s = String::from_str("https://www.kinguin.net/steam-games?platforms=2&genres=");
            s.append(code);
            s.append("&active=1&hideUnavailable=0&type=kinguin&priceFrom=");
            s.append(dec_string(converted(store, price_min)).as_str());
            s.append("&priceTo=");
            s.append(dec_string(converted(store, price_max)).as_str());
            s.append("&phrase=&page=");
            s.append(dec_string((page - 1) as u64).as_str());
            s.append("&size=50&sort=bestseller.score,DESC");
            proof {
                assert(s@ =~= spec_build_url(
                    store,
                    price_min as nat,
                    price_max as nat,
                    genre,
                    page as nat,
                ));
            }
            s
        },
        Store::Cdkeys => {
            let mut s = String::from_str("https://www.cdkeys.com/pc/games?genres=");
            s.append(code);
            s.append("&p=");
            s.append(dec_string(page as u64).as_str());
            s.append("&price=");
            s.append(cents_to_string(converted(store, price_min)).as_str());
            s.append("-");
            s.append(cents_to_string(converted(store, price_max)).as_str());
            proof {
                assert(s@ =~= spec_build_url(
                    store,
                    price_min as nat,
                    price_max as nat,
                    genre,
                    page as nat,
                ));
            }
            s
        },
    }
}

/// `needle` occurs contiguously somewhere in `hay`.
pub open spec fn contains_seq(hay: Seq<char>, needle: Seq<char>) -> bool {
    exists|i: int|
        0 <= i && i + needle.len() <= hay.len() && #[trigger] hay.subrange(i, i + needle.len())
            == needle
}

proof fn lemma_contains_at(hay: Seq<char>, needle: Seq<char>, i: int)
    requires
        0 <= i,
        i + needle.len() <= hay.len(),
        hay.subrange(i, i + needle.len()) == needle,
    ensures
        contains_seq(hay, needle),
{
}

/// Every built URL carries the store's genre code and both converted price
/// bounds, each written as that store's query scheme writes it. Together
/// with `build_url`'s postcondition — the URL is a function of store,
/// bounds, genre and page alone — this is the determinism-and-content law
/// for URL construction.
pub proof fn lemma_url_parts(store: Store, price_min: nat, price_max: nat, genre: Genre, page: nat)
    requires
        page >= 1,
    ensures
        contains_seq(
            spec_build_url(store, price_min, price_max, genre, page),
            spec_genre_code(store, genre),
        ),
        contains_seq(
            spec_build_url(store, price_min, price_max, genre, page),
            spec_price_param(store, price_min),
        ),
        contains_seq(
            spec_build_url(store, price_min, price_max, genre, page),
            spec_price_param(store, price_max),
        ),
{
    let url = spec_build_url(store, price_min, price_max, genre, page);
    let code = spec_genre_code(store, genre);
    let pmin = spec_price_param(store, price_min);
    let pmax = spec_price_param(store, price_max);
    match store {
        Store::G2a => {
            let a = "https://www.g2a.com/category/"@;
            let b = a + code + "?page="@ + dec_digits(page) + "&price%5Bmax%5D="@;
            let c = b + pmax + "&price%5Bmin%5D="@;
            assert(url.subrange(a.len() as int, a.len() + code.len() as int) =~= code);
            lemma_contains_at(url, code, a.len() as int);
            assert(url.subrange(b.len() as int, b.len() + pmax.len() as int) =~= pmax);
            lemma_contains_at(url, pmax, b.len() as int);
            assert(url.subrange(c.len() as int, c.len() + pmin.len() as int) =~= pmin);
            lemma_contains_at(url, pmin, c.len() as int);
        },
        Store::Kinguin => {
            let a = "https://www.kinguin.net/steam-games?platforms=2&genres="@;
            let b = a + code + "&active=1&hideUnavailable=0&type=kinguin&priceFrom="@;
            let c = b + pmin + "&priceTo="@;
            assert(url.subrange(a.len() as int, a.len() + code.len() as int) =~= code);
            lemma_contains_at(url, code, a.len() as int);
            assert(url.subrange(b.len() as int, b.len() + pmin.len() as int) =~= pmin);
            lemma_contains_at(url, pmin, b.len() as int);
            assert(url.subrange(c.len() as int, c.len() + pmax.len() as int) =~= pmax);
            lemma_contains_at(url, pmax, c.len() as int);
        },
        Store::Cdkeys => {
            let a = "https://www.cdkeys.com/pc/games?genres="@;
            let b = a + code + "&p="@ + dec_digits(page) + "&price="@;
            let c = b + pmin + "-"@;
            assert(url.subrange(a.len() as int, a.len() + code.len() as int) =~= code);
            lemma_contains_at(url, code, a.len() as int);
            assert(url.subrange(b.len() as int, b.len() + pmin.len() as int) =~= pmin);
            lemma_contains_at(url, pmin, b.len() as int);
            assert(url.subrange(c.len() as int, c.len() + pmax.len() as int) =~= pmax);
            lemma_contains_at(url, pmax, c.len() as int);
        },
    }
}

} // verus!
