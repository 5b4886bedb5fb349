//! The scraping engine: per-item field extraction with threshold filtering,
//! page traversal, and the per-store and whole-run drivers.
//!
//! The engine is written against what the browser session hands back for
//! each element query, so it runs unchanged over a live session's answers
//! or over fixture pages. A failed query on the optional discount badge
//! means "no discount"; a failed query on a required field is fatal for
//! the store's remaining pages and items, but never for the other stores.

use vstd::prelude::*;
use crate::aggregate::{AggregateMap, GameDataV, StoreData, StoreDataV, apply_upserts, spec_upsert};
use crate::catalog::{Genre, Store};
use crate::digits::{spec_parse_cents, spec_parse_sale, parse_cents, parse_sale};

verus! {

/// The shared filter every store's scraper applies: a price window in
/// hundredths of the reference currency, the minimum discount percentage,
/// and the genre. Never mutated after scrape start.
pub struct Filter {
    pub price_min: u64,
    pub price_max: u64,
    pub min_sale: u32,
    pub genre: Genre,
}

/// Why a store's pass ended early. Each aborts the remaining pages and
/// items of that store only.
#[derive(Clone, Copy, PartialEq, Eq, Structural, Debug)]
pub enum StoreError {
    /// Navigating to a listing page failed.
    Navigation,
    /// Querying the page for its item containers failed.
    Query,
    /// A required field of an item could not be read.
    Extract,
    /// A discount or price text was malformed.
    Parse,
}

/// Opening the browser session failed; the whole run is abandoned before
/// any store is attempted.
#[derive(Clone, Copy, PartialEq, Eq, Structural, Debug)]
pub struct SessionInitError;

/// What querying an item's discount badge yielded.
pub enum BadgeText {
    /// The badge element is absent: the item is not discounted.
    Absent,
    /// The badge's text.
    Text(String),
    /// The badge was found but its text could not be read.
    Unreadable,
}

/// The ghost value of a `BadgeText`.
pub enum BadgeTextV {
    Absent,
    Text(Seq<char>),
    Unreadable,
}

impl View for BadgeText {
    type V = BadgeTextV;

    open spec fn view(&self) -> BadgeTextV {
        match self {
            BadgeText::Absent => BadgeTextV::Absent,
            BadgeText::Text(t) => BadgeTextV::Text(t@),
            BadgeText::Unreadable => BadgeTextV::Unreadable,
        }
    }
}

/// One item container as the session answered for it: the discount badge
/// outcome, and each required field's text, `None` where the query or the
/// read failed (for the link, also where the attribute was absent).
pub struct RawItem {
    pub badge: BadgeText,
    pub name: Option<String>,
    pub link: Option<String>,
    pub price_text: Option<String>,
}

/// The ghost value of an optional text field.
pub open spec fn opt_text_view(o: Option<String>) -> Option<Seq<char>> {
    match o {
        Some(s) => Some(s@),
        None => None,
    }
}

/// The ghost value of a `RawItem`.
pub struct RawItemV {
    pub badge: BadgeTextV,
    pub name: Option<Seq<char>>,
    pub link: Option<Seq<char>>,
    pub price_text: Option<Seq<char>>,
}

impl View for RawItem {
    type V = RawItemV;

    open spec fn view(&self) -> RawItemV {
        RawItemV {
            badge: self.badge@,
            name: opt_text_view(self.name),
            link: opt_text_view(self.link),
            price_text: opt_text_view(self.price_text),
        }
    }
}

/// The discount an item's badge outcome denotes: absent badge means zero,
/// a badge text must start with its one-or-two-digit percentage.
pub open spec fn spec_sale_of(b: BadgeTextV) -> Result<u32, StoreError> {
    match b {
        BadgeTextV::Absent => Ok(0u32),
        BadgeTextV::Text(t) => match spec_parse_sale(t) {
            Some(v) => Ok(v),
            None => Err(StoreError::Parse),
        },
        BadgeTextV::Unreadable => Err(StoreError::Extract),
    }
}

/// Read the discount off a badge outcome.
pub fn sale_of_badge(b: &BadgeText) -> (r: Result<u32, StoreError>)
    ensures
        r == spec_sale_of(b@),
{
    match b {
        BadgeText::Absent => Ok(0u32),
        BadgeText::Text(t) => match parse_sale(t.as_str()) {
            Some(v) => Ok(v),
            None => Err(StoreError::Parse),
        },
        BadgeText::Unreadable => Err(StoreError::Extract),
    }
}

/// How many characters at the front of `s` come before a space.
pub open spec fn token_len(s: Seq<char>) -> nat
    decreases s.len(),
{
    if s.len() == 0 || s[0] == ' ' {
        0
    } else {
        1 + token_len(s.subrange(1, s.len() as int))
    }
}

proof fn lemma_token_len_unique(s: Seq<char>, n: nat)
    requires
        n <= s.len(),
        forall|i: int| 0 <= i < n ==> s[i] != ' ',
        n < s.len() ==> s[n as int] == ' ',
    ensures
        n == token_len(s),
    decreases s.len(),
{
    if s.len() == 0 {
    } else if s[0] == ' ' {
        assert(n == 0) by {
            if n > 0 {
                assert(s[0] != ' ');
            }
        }
    } else {
        assert(n >= 1) by {
            if n == 0 {
                assert(s[0] == ' ');
            }
        }
        let t = s.subrange(1, s.len() as int);
        assert(forall|i: int| 0 <= i < n - 1 ==> t[i] != ' ');
        lemma_token_len_unique(t, (n - 1) as nat);
    }
}

/// Find where the leading space-free token of `s` ends.
fn find_token_end(s: &str) -> (n: usize)
    ensures
        n == token_len(s@),
        n <= s@.len(),
{
    let len = s.unicode_len();
    let mut i: usize = 0;
    while i < len
        invariant
            0 <= i <= len,
            len == s@.len(),
            forall|j: int| 0 <= j < i ==> s@[j] != ' ',
        decreases len - i,
    {
        if s.get_char(i) == ' ' {
            proof {
                lemma_token_len_unique(s@, i as nat);
            }
            return i;
        }
        i = i + 1;
    }
    proof {
        lemma_token_len_unique(s@, i as nat);
    }
    i
}

/// The fragment of an item's price text that holds the amount, by the
/// store's own markup convention: the leading space-delimited token, or,
/// for the store that prefixes three characters of currency markup, all
/// that follows them.
pub open spec fn spec_price_fragment(store: Store, t: Seq<char>) -> Option<Seq<char>> {
    match store {
        Store::G2a => Some(t.subrange(0, token_len(t) as int)),
        Store::Kinguin => Some(t.subrange(0, token_len(t) as int)),
        Store::Cdkeys => if t.len() < 3 {
            None
        } else {
            Some(t.subrange(3, t.len() as int))
        },
    }
}

/// The price an item's price text denotes for a store, in hundredths of
/// the store's currency; `None` when the fragment is malformed.
pub open spec fn spec_parse_price(store: Store, t: Seq<char>) -> Option<nat> {
    match spec_price_fragment(store, t) {
        Some(f) => spec_parse_cents(f),
        None => None,
    }
}

/// Parse an item's price text for a store. `Err` exactly when the store's
/// fragment of the text is missing or malformed, or the amount does not
/// fit in `u64` hundredths.
pub fn parse_price(store: Store, t: &str) -> (r: Result<u64, StoreError>)
    ensures
        match spec_parse_price(store, t@) {
            Some(v) => if v <= u64::MAX {
                r == Ok::<u64, StoreError>(v as u64)
            } else {
                r == Err::<u64, StoreError>(StoreError::Parse)
            },
            None => r == Err::<u64, StoreError>(StoreError::Parse),
        },
{
    let frag: &str = match store {
        Store::G2a | Store::Kinguin => {
            let end = find_token_end(t);
            t.substring_char(0, end)
        },
        Store::Cdkeys => {
            let len = t.unicode_len();
            if len < 3 {
                return Err(StoreError::Parse);
            }
            t.substring_char(3, len)
        },
    };
    match parse_cents(frag) {
        Some(v) => Ok(v),
        None => Err(StoreError::Parse),
    }
}

/// What one item contributes: nothing, one (title, record) sighting, or a
/// fatal error for the store's pass.
pub enum ItemStep {
    Skip,
    Keep(Seq<char>, StoreDataV),
    Fail(StoreError),
}

/// The decision for one item: read the discount off the badge, drop the
/// item when the discount is under the threshold, otherwise demand title,
/// link and a well-formed price.
pub open spec fn spec_item_step(store: Store, min_sale: u32, it: RawItemV) -> ItemStep {
    match spec_sale_of(it.badge) {
        Err(e) => ItemStep::Fail(e),
        Ok(sale) => if sale < min_sale {
            ItemStep::Skip
        } else {
            match it.name {
                None => ItemStep::Fail(StoreError::Extract),
                Some(name) => match it.link {
                    None => ItemStep::Fail(StoreError::Extract),
                    Some(link) => match it.price_text {
                        None => ItemStep::Fail(StoreError::Extract),
                        Some(pt) => match spec_parse_price(store, pt) {
                            None => ItemStep::Fail(StoreError::Parse),
                            Some(v) => if v <= u64::MAX {
                                ItemStep::Keep(
                                    name,
                                    StoreDataV { price: v as u64, sale, link },
                                )
                            } else {
                                ItemStep::Fail(StoreError::Parse)
                            },
                        },
                    },
                },
            }
        },
    }
}

/// One item's outcome, executably.
pub enum ItemOutcome {
    /// The item's discount is under the threshold: contribute nothing.
    Skip,
    /// The item is kept: its title and the record to upsert.
    Keep(String, StoreData),
    /// A fatal error for the store's pass.
    Fail(StoreError),
}

/// Decide one item: the executable `spec_item_step`.
pub fn process_item(store: Store, min_sale: u32, it: &RawItem) -> (r: ItemOutcome)
    ensures
        match r {
            ItemOutcome::Skip => spec_item_step(store, min_sale, it@) == ItemStep::Skip,
            ItemOutcome::Keep(name, rec) => spec_item_step(store, min_sale, it@) == ItemStep::Keep(
                name@,
                rec@,
            ),
            ItemOutcome::Fail(e) => spec_item_step(store, min_sale, it@) == ItemStep::Fail(e),
        },
{
    let sale = match sale_of_badge(&it.badge) {
        Ok(s) => s,
        Err(e) => {
            return ItemOutcome::Fail(e);
        },
    };
    if sale < min_sale {
        return ItemOutcome::Skip;
    }
    let name = match &it.name {
        Some(n) => n.clone(),
        None => {
            return ItemOutcome::Fail(StoreError::Extract);
        },
    };
    let link = match &it.link {
        Some(l) => l.clone(),
        None => {
            return ItemOutcome::Fail(StoreError::Extract);
        },
    };
    let price_text = match &it.price_text {
        Some(p) => p,
        None => {
            return ItemOutcome::Fail(StoreError::Extract);
        },
    };
    match parse_price(store, price_text.as_str()) {
        Ok(price) => ItemOutcome::Keep(name, StoreData { price, sale, link }),
        Err(e) => ItemOutcome::Fail(e),
    }
}

/// The ghost values of a run of items.
pub open spec fn items_view(s: Seq<RawItem>) -> Seq<RawItemV> {
    s.map_values(|it: RawItem| it@)
}

/// The (title, record) sightings a page's items yield, in order, cut off
/// at the first failing item.
pub open spec fn page_records(store: Store, min_sale: u32, items: Seq<RawItemV>) -> Seq<
    (Seq<char>, StoreDataV),
>
    decreases items.len(),
{
    if items.len() == 0 {
        Seq::empty()
    } else {
        let rest = items.subrange(1, items.len() as int);
        match spec_item_step(store, min_sale, items[0]) {
            ItemStep::Fail(e) => Seq::empty(),
            ItemStep::Skip => page_records(store, min_sale, rest),
            ItemStep::Keep(k, v) => seq![(k, v)] + page_records(store, min_sale, rest),
        }
    }
}

/// The first failing item's error on a page, if any.
pub open spec fn page_failure(store: Store, min_sale: u32, items: Seq<RawItemV>) -> Option<
    StoreError,
>
    decreases items.len(),
{
    if items.len() == 0 {
        None
    } else {
        let rest = items.subrange(1, items.len() as int);
        match spec_item_step(store, min_sale, items[0]) {
            ItemStep::Fail(e) => Some(e),
            _ => page_failure(store, min_sale, rest),
        }
    }
}

/// An item whose discount reads below the threshold contributes nothing:
/// the page's sightings, its failure, and hence the table, are exactly as
/// if the item had not existed.
pub proof fn lemma_filtered_item_no_effect(
    store: Store,
    min_sale: u32,
    it: RawItemV,
    rest: Seq<RawItemV>,
    m: Map<Seq<char>, GameDataV>,
    sale: u32,
)
    requires
        spec_sale_of(it.badge) == Ok::<u32, StoreError>(sale),
        sale < min_sale,
    ensures
        page_records(store, min_sale, seq![it] + rest) == page_records(store, min_sale, rest),
        page_failure(store, min_sale, seq![it] + rest) == page_failure(store, min_sale, rest),
        apply_upserts(m, store, page_records(store, min_sale, seq![it] + rest)) == apply_upserts(
            m,
            store,
            page_records(store, min_sale, rest),
        ),
{
    let s = seq![it] + rest;
    assert(s[0] == it);
    assert(spec_item_step(store, min_sale, it) == ItemStep::Skip);
    assert(s.subrange(1, s.len() as int) =~= rest);
}

/// An item whose discount reads at or above the threshold, with its
/// required fields readable and its price text well formed, is kept with
/// exactly the parsed price, the badge's discount, and the link as read.
pub proof fn lemma_item_kept_exact(
    store: Store,
    min_sale: u32,
    it: RawItemV,
    sale: u32,
    p: nat,
)
    requires
        spec_sale_of(it.badge) == Ok::<u32, StoreError>(sale),
        sale >= min_sale,
        it.name is Some,
        it.link is Some,
        it.price_text is Some,
        spec_parse_price(store, it.price_text.unwrap()) == Some(p),
        p <= u64::MAX,
    ensures
        spec_item_step(store, min_sale, it) == ItemStep::Keep(
            it.name.unwrap(),
            StoreDataV { price: p as u64, sale, link: it.link.unwrap() },
        ),
{
}

/// An item whose discount reads at or above the threshold, with its
/// required fields readable and its price well formed, contributes exactly
/// one upsert: its title gains the extracted record in this store's slot,
/// in front of whatever the rest of the page contributes.
pub proof fn lemma_kept_item_one_upsert(
    store: Store,
    min_sale: u32,
    it: RawItemV,
    rest: Seq<RawItemV>,
    m: Map<Seq<char>, GameDataV>,
    k: Seq<char>,
    v: StoreDataV,
)
    requires
        spec_item_step(store, min_sale, it) == ItemStep::Keep(k, v),
    ensures
        page_records(store, min_sale, seq![it] + rest) == seq![(k, v)] + page_records(
            store,
            min_sale,
            rest,
        ),
        apply_upserts(m, store, page_records(store, min_sale, seq![it] + rest)) == apply_upserts(
            spec_upsert(m, store, k, v),
            store,
            page_records(store, min_sale, rest),
        ),
{
    let s = seq![it] + rest;
    assert(s[0] == it);
    assert(s.subrange(1, s.len() as int) =~= rest);
    lemma_apply_upserts_cons(m, store, (k, v), page_records(store, min_sale, rest));
}

/// Prepending an upsert to a run is upserting first, then the run.
pub proof fn lemma_apply_upserts_cons(
    m: Map<Seq<char>, GameDataV>,
    store: Store,
    x: (Seq<char>, StoreDataV),
    rs: Seq<(Seq<char>, StoreDataV)>,
)
    ensures
        apply_upserts(m, store, seq![x] + rs) == apply_upserts(
            spec_upsert(m, store, x.0, x.1),
            store,
            rs,
        ),
    decreases rs.len(),
{
    let s = seq![x] + rs;
    if rs.len() == 0 {
        assert(s.drop_last() =~= Seq::<(Seq<char>, StoreDataV)>::empty());
        assert(apply_upserts(m, store, s.drop_last()) == m);
        assert(s.last() == x);
        assert(apply_upserts(m, store, s) == spec_upsert(m, store, x.0, x.1));
        assert(apply_upserts(spec_upsert(m, store, x.0, x.1), store, rs) == spec_upsert(
            m,
            store,
            x.0,
            x.1,
        ));
    } else {
        assert(s.drop_last() =~= seq![x] + rs.drop_last());
        assert(s.last() == rs.last());
        lemma_apply_upserts_cons(m, store, x, rs.drop_last());
        let u = spec_upsert(m, store, x.0, x.1);
        assert(apply_upserts(m, store, s) == spec_upsert(
            apply_upserts(m, store, s.drop_last()),
            store,
            rs.last().0,
            rs.last().1,
        ));
        assert(apply_upserts(u, store, rs) == spec_upsert(
            apply_upserts(u, store, rs.drop_last()),
            store,
            rs.last().0,
            rs.last().1,
        ));
    }
}

/// A run of upserts splits at any point.
pub proof fn lemma_apply_upserts_concat(
    m: Map<Seq<char>, GameDataV>,
    store: Store,
    a: Seq<(Seq<char>, StoreDataV)>,
    b: Seq<(Seq<char>, StoreDataV)>,
)
    ensures
        apply_upserts(m, store, a + b) == apply_upserts(apply_upserts(m, store, a), store, b),
    decreases b.len(),
{
    if b.len() == 0 {
        assert(a + b =~= a);
    } else {
        assert((a + b).drop_last() =~= a + b.drop_last());
        assert((a + b).last() == b.last());
        lemma_apply_upserts_concat(m, store, a, b.drop_last());
    }
}

/// Walk the items of one page from `idx` on, upserting each kept item,
/// stopping at the first failure.
fn scrape_items_from(
    store: Store,
    min_sale: u32,
    items: &Vec<RawItem>,
    idx: usize,
    map: &mut AggregateMap,
) -> (r: Result<(), StoreError>)
    requires
        old(map).wf(),
        idx <= items@.len(),
    ensures
        final(map).wf(),
        final(map)@ == apply_upserts(
            old(map)@,
            store,
            page_records(
                store,
                min_sale,
                items_view(items@).subrange(idx as int, items@.len() as int),
            ),
        ),
        r == match page_failure(
            store,
            min_sale,
            items_view(items@).subrange(idx as int, items@.len() as int),
        ) {
            None => Ok::<(), StoreError>(()),
            Some(e) => Err::<(), StoreError>(e),
        },
    decreases items@.len() - idx,
{
    let ghost suffix = items_view(items@).subrange(idx as int, items@.len() as int);
    if idx == items.len() {
        assert(suffix =~= Seq::<RawItemV>::empty());
        return Ok(());
    }
    proof {
        assert(suffix[0] == items@[idx as int]@);
        assert(suffix.subrange(1, suffix.len() as int) =~= items_view(items@).subrange(
            idx as int + 1,
            items@.len() as int,
        ));
    }
    match process_item(store, min_sale, &items[idx]) {
        ItemOutcome::Fail(e) => {
            assert(page_records(store, min_sale, suffix) =~= Seq::<(Seq<char>, StoreDataV)>::empty());
            Err(e)
        },
        ItemOutcome::Skip => scrape_items_from(store, min_sale, items, idx + 1, map),
        ItemOutcome::Keep(name, rec) => {
            let ghost m0 = map@;
            let ghost x = (name@, rec@);
            map.upsert(store, name, rec);
            let r = scrape_items_from(store, min_sale, items, idx + 1, map);
            proof {
                let rest = suffix.subrange(1, suffix.len() as int);
                lemma_apply_upserts_cons(m0, store, x, page_records(store, min_sale, rest));
                assert(page_records(store, min_sale, suffix) == seq![x] + page_records(
                    store,
                    min_sale,
                    rest,
                ));
            }
            r
        },
    }
}

/// Process one page's item containers against the filter's threshold,
/// writing every kept item into the table. The table afterwards is the
/// table before with exactly the kept items' upserts applied in order up
/// to the first failing item; the result reports that item's error.
/// Items under the threshold mutate nothing.
pub fn scrape_page(
    store: Store,
    filter: &Filter,
    items: &Vec<RawItem>,
    map: &mut AggregateMap,
) -> (r: Result<(), StoreError>)
    requires
        old(map).wf(),
    ensures
        final(map).wf(),
        final(map)@ == apply_upserts(
            old(map)@,
            store,
            page_records(store, filter.min_sale, items_view(items@)),
        ),
        r == match page_failure(store, filter.min_sale, items_view(items@)) {
            None => Ok::<(), StoreError>(()),
            Some(e) => Err::<(), StoreError>(e),
        },
{
    proof {
        assert(items_view(items@).subrange(0, items@.len() as int) =~= items_view(items@));
    }
    scrape_items_from(store, filter.min_sale, items, 0, map)
}

/// What one navigation of a store's page traversal yielded.
pub enum PageOutcome {
    /// Navigating to the page's URL failed.
    NavFailed,
    /// The page's item containers could not be queried.
    QueryFailed,
    /// The item containers, in page order.
    Items(Vec<RawItem>),
}

/// The ghost value of a `PageOutcome`.
pub enum PageOutcomeV {
    NavFailed,
    QueryFailed,
    Items(Seq<RawItemV>),
}

impl View for PageOutcome {
    type V = PageOutcomeV;

    open spec fn view(&self) -> PageOutcomeV {
        match self {
            PageOutcome::NavFailed => PageOutcomeV::NavFailed,
            PageOutcome::QueryFailed => PageOutcomeV::QueryFailed,
            PageOutcome::Items(v) => PageOutcomeV::Items(items_view(v@)),
        }
    }
}

/// The ghost values of a run of pages.
pub open spec fn pages_view(s: Seq<PageOutcome>) -> Seq<PageOutcomeV> {
    s.map_values(|p: PageOutcome| p@)
}

/// The sightings a store's whole pass yields: each page's records in
/// order, cut off at the first failing page.
pub open spec fn store_records(store: Store, min_sale: u32, pages: Seq<PageOutcomeV>) -> Seq<
    (Seq<char>, StoreDataV),
>
    decreases pages.len(),
{
    if pages.len() == 0 {
        Seq::empty()
    } else {
        let rest = pages.subrange(1, pages.len() as int);
        match pages[0] {
            PageOutcomeV::NavFailed => Seq::empty(),
            PageOutcomeV::QueryFailed => Seq::empty(),
            PageOutcomeV::Items(items) => if page_failure(store, min_sale, items) is Some {
                page_records(store, min_sale, items)
            } else {
                page_records(store, min_sale, items) + store_records(store, min_sale, rest)
            },
        }
    }
}

/// The error that cut a store's pass short, if any.
pub open spec fn store_failure(store: Store, min_sale: u32, pages: Seq<PageOutcomeV>) -> Option<
    StoreError,
>
    decreases pages.len(),
{
    if pages.len() == 0 {
        None
    } else {
        let rest = pages.subrange(1, pages.len() as int);
        match pages[0] {
            PageOutcomeV::NavFailed => Some(StoreError::Navigation),
            PageOutcomeV::QueryFailed => Some(StoreError::Query),
            PageOutcomeV::Items(items) => match page_failure(store, min_sale, items) {
                Some(e) => Some(e),
                None => store_failure(store, min_sale, rest),
            },
        }
    }
}

/// Walk a store's page outcomes from `idx` on, processing each page's
/// items, stopping at the first failure.
fn scrape_pages_from(
    store: Store,
    filter: &Filter,
    pages: &Vec<PageOutcome>,
    idx: usize,
    map: &mut AggregateMap,
) -> (r: Result<(), StoreError>)
    requires
        old(map).wf(),
        idx <= pages@.len(),
    ensures
        final(map).wf(),
        final(map)@ == apply_upserts(
            old(map)@,
            store,
            store_records(
                store,
                filter.min_sale,
                pages_view(pages@).subrange(idx as int, pages@.len() as int),
            ),
        ),
        r == match store_failure(
            store,
            filter.min_sale,
            pages_view(pages@).subrange(idx as int, pages@.len() as int),
        ) {
            None => Ok::<(), StoreError>(()),
            Some(e) => Err::<(), StoreError>(e),
        },
    decreases pages@.len() - idx,
{
    let ghost suffix = pages_view(pages@).subrange(idx as int, pages@.len() as int);
    if idx == pages.len() {
        assert(suffix =~= Seq::<PageOutcomeV>::empty());
        return Ok(());
    }
    proof {
        assert(suffix[0] == pages@[idx as int]@);
        assert(suffix.subrange(1, suffix.len() as int) =~= pages_view(pages@).subrange(
            idx as int + 1,
            pages@.len() as int,
        ));
    }
    match &pages[idx] {
        PageOutcome::NavFailed => {
            assert(store_records(store, filter.min_sale, suffix) =~= Seq::<
                (Seq<char>, StoreDataV),
            >::empty());
            Err(StoreError::Navigation)
        },
        PageOutcome::QueryFailed => {
            assert(store_records(store, filter.min_sale, suffix) =~= Seq::<
                (Seq<char>, StoreDataV),
            >::empty());
            Err(StoreError::Query)
        },
        PageOutcome::Items(items) => {
            let ghost m0 = map@;
            let page_r = scrape_page(store, filter, items, map);
            match page_r {
                Err(e) => Err(e),
                Ok(()) => {
                    let r = scrape_pages_from(store, filter, pages, idx + 1, map);
                    proof {
                        let rest = suffix.subrange(1, suffix.len() as int);
                        lemma_apply_upserts_concat(
                            m0,
                            store,
                            page_records(store, filter.min_sale, items_view(items@)),
                            store_records(store, filter.min_sale, rest),
                        );
                    }
                    r
                },
            }
        },
    }
}

/// One store's whole pass: process every supplied page outcome in order,
/// stopping at the first failure. The table gains exactly the pass's kept
/// sightings; pages and items after a failure contribute nothing; the
/// other stores' slots are never touched.
pub fn scrape_store(
    store: Store,
    filter: &Filter,
    pages: &Vec<PageOutcome>,
    map: &mut AggregateMap,
) -> (r: Result<(), StoreError>)
    requires
        old(map).wf(),
    ensures
        final(map).wf(),
        final(map)@ == apply_upserts(
            old(map)@,
            store,
            store_records(store, filter.min_sale, pages_view(pages@)),
        ),
        r == match store_failure(store, filter.min_sale, pages_view(pages@)) {
            None => Ok::<(), StoreError>(()),
            Some(e) => Err::<(), StoreError>(e),
        },
{
    proof {
        assert(pages_view(pages@).subrange(0, pages@.len() as int) =~= pages_view(pages@));
    }
    scrape_pages_from(store, filter, pages, 0, map)
}

/// What the session served for each store's page traversal, in the order
/// the pages were visited.
pub struct SessionPages {
    pub g2a: Vec<PageOutcome>,
    pub kinguin: Vec<PageOutcome>,
    pub cdkeys: Vec<PageOutcome>,
}

/// A finished run: the aggregate table, and each store's reported result.
/// A store's error never aborts the run; it only ends that store's pass.
pub struct ScrapeOutcome {
    pub map: AggregateMap,
    pub g2a_result: Result<(), StoreError>,
    pub kinguin_result: Result<(), StoreError>,
    pub cdkeys_result: Result<(), StoreError>,
}

/// The table a whole run builds: each store's kept sightings applied to an
/// empty table, one store after another.
pub open spec fn spec_run_map(min_sale: u32, session: SessionPages) -> Map<Seq<char>, GameDataV> {
    apply_upserts(
        apply_upserts(
            apply_upserts(
                Map::empty(),
                Store::G2a,
                store_records(Store::G2a, min_sale, pages_view(session.g2a@)),
            ),
            Store::Kinguin,
            store_records(Store::Kinguin, min_sale, pages_view(session.kinguin@)),
        ),
        Store::Cdkeys,
        store_records(Store::Cdkeys, min_sale, pages_view(session.cdkeys@)),
    )
}

/// One whole run. `session` is what the browser session served, or `None`
/// when opening the session itself failed: then the run is abandoned
/// before any store is attempted and the error is returned — no partial
/// table is built. Otherwise the three stores run in sequence against the
/// same filter; a store's failure is recorded in its result field and the
/// remaining stores still run.
pub fn scrape(filter: &Filter, session: Option<SessionPages>) -> (r: Result<
    ScrapeOutcome,
    SessionInitError,
>)
    ensures
        session is None <==> r is Err,
        (match session {
            Some(s) => match r {
                Ok(out) => out.map.wf() && out.map@ == spec_run_map(filter.min_sale, s)
                    && out.g2a_result == (match store_failure(
                    Store::G2a,
                    filter.min_sale,
                    pages_view(s.g2a@),
                ) {
                    None => Ok::<(), StoreError>(()),
                    Some(e) => Err::<(), StoreError>(e),
                }) && out.kinguin_result == (match store_failure(
                    Store::Kinguin,
                    filter.min_sale,
                    pages_view(s.kinguin@),
                ) {
                    None => Ok::<(), StoreError>(()),
                    Some(e) => Err::<(), StoreError>(e),
                }) && out.cdkeys_result == (match store_failure(
                    Store::Cdkeys,
                    filter.min_sale,
                    pages_view(s.cdkeys@),
                ) {
                    None => Ok::<(), StoreError>(()),
                    Some(e) => Err::<(), StoreError>(e),
                }),
                Err(_) => false,
            },
            None => r == Err::<ScrapeOutcome, SessionInitError>(SessionInitError),
        }),
{
    let s = match session {
        Some(s) => s,
        None => {
            return Err(SessionInitError);
        },
    };
    let mut map = AggregateMap::new();
    let g2a_result = scrape_store(Store::G2a, filter, &s.g2a, &mut map);
    let kinguin_result = scrape_store(Store::Kinguin, filter, &s.kinguin, &mut map);
    let cdkeys_result = scrape_store(Store::Cdkeys, filter, &s.cdkeys, &mut map);
    Ok(ScrapeOutcome { map, g2a_result, kinguin_result, cdkeys_result })
}

} // verus!
