//! The aggregate table: per-store records merged into one mapping keyed by
//! game title.
//!
//! Each entry holds up to one record per store. An upsert writes one
//! store's slot for one title and touches nothing else; titles are matched
//! exactly, case- and whitespace-sensitive. Entries are never removed.

use vstd::prelude::*;
use crate::catalog::Store;

verus! {

/// What one store offers for one game: price in hundredths of the store's
/// native currency, the discount percentage, and the listing link.
pub struct StoreData {
    pub price: u64,
    pub sale: u32,
    pub link: String,
}

/// The mathematical value of a `StoreData`.
pub struct StoreDataV {
    pub price: u64,
    pub sale: u32,
    pub link: Seq<char>,
}

impl View for StoreData {
    type V = StoreDataV;

    open spec fn view(&self) -> StoreDataV {
        StoreDataV { price: self.price, sale: self.sale, link: self.link@ }
    }
}

impl StoreData {
    /// A field-for-field copy.
    pub fn duplicate(&self) -> (r: StoreData)
        ensures
            r@ == self@,
    {
        StoreData { price: self.price, sale: self.sale, link: self.link.clone() }
    }
}

/// One game's entry: an optional record per store.
pub struct GameData {
    pub g2a: Option<StoreData>,
    pub kinguin: Option<StoreData>,
    pub cdkeys: Option<StoreData>,
}

/// The mathematical value of a `GameData`.
pub struct GameDataV {
    pub g2a: Option<StoreDataV>,
    pub kinguin: Option<StoreDataV>,
    pub cdkeys: Option<StoreDataV>,
}

/// The view of an optional record.
pub open spec fn opt_view(o: Option<StoreData>) -> Option<StoreDataV> {
    match o {
        Some(d) => Some(d@),
        None => None,
    }
}

impl View for GameData {
    type V = GameDataV;

    open spec fn view(&self) -> GameDataV {
        GameDataV {
            g2a: opt_view(self.g2a),
            kinguin: opt_view(self.kinguin),
            cdkeys: opt_view(self.cdkeys),
        }
    }
}

/// The entry with every store's slot absent.
pub open spec fn empty_entry() -> GameDataV {
    GameDataV { g2a: None, kinguin: None, cdkeys: None }
}

/// One store's slot of an entry.
pub open spec fn spec_slot(e: GameDataV, store: Store) -> Option<StoreDataV> {
    match store {
        Store::G2a => e.g2a,
        Store::Kinguin => e.kinguin,
        Store::Cdkeys => e.cdkeys,
    }
}

/// The entry with one store's slot replaced and the others kept.
pub open spec fn spec_set_slot(e: GameDataV, store: Store, r: StoreDataV) -> GameDataV {
    match store {
        Store::G2a => GameDataV { g2a: Some(r), ..e },
        Store::Kinguin => GameDataV { kinguin: Some(r), ..e },
        Store::Cdkeys => GameDataV { cdkeys: Some(r), ..e },
    }
}

impl GameData {
    /// A fresh entry with every store's slot absent.
    pub fn new() -> (r: GameData)
        ensures
            r@ == empty_entry(),
    {
        GameData { g2a: None, kinguin: None, cdkeys: None }
    }

    /// A copy of this entry with one store's slot replaced.
    pub fn with_slot(&self, store: Store, rec: StoreData) -> (r: GameData)
        ensures
            r@ == spec_set_slot(self@, store, rec@),
    {
        let mut r = GameData {
            g2a: match &self.g2a {
                Some(d) => Some(d.duplicate()),
                None => None,
            },
            kinguin: match &self.kinguin {
                Some(d) => Some(d.duplicate()),
                None => None,
            },
            cdkeys: match &self.cdkeys {
                Some(d) => Some(d.duplicate()),
                None => None,
            },
        };
        match store {
            Store::G2a => {
                r.g2a = Some(rec);
            },
            Store::Kinguin => {
                r.kinguin = Some(rec);
            },
            Store::Cdkeys => {
                r.cdkeys = Some(rec);
            },
        }
        r
    }
}

/// The mapping an entry list denotes, later pairs winning.
pub open spec fn map_of(s: Seq<(String, GameData)>) -> Map<Seq<char>, GameDataV>
    decreases s.len(),
{
    if s.len() == 0 {
        Map::empty()
    } else {
        map_of(s.drop_last()).insert(s.last().0@, s.last().1@)
    }
}

/// `map_of` holds exactly the listed titles.
pub proof fn lemma_map_of_dom(s: Seq<(String, GameData)>, k: Seq<char>)
    ensures
        map_of(s).contains_key(k) <==> exists|i: int| 0 <= i < s.len() && s[i].0@ == k,
    decreases s.len(),
{
    if s.len() > 0 {
        lemma_map_of_dom(s.drop_last(), k);
        if map_of(s).contains_key(k) {
            if s.last().0@ != k {
                let i = choose|i: int| 0 <= i < s.len() - 1 && s.drop_last()[i].0@ == k;
                assert(s[i].0@ == k);
            }
        }
        if exists|i: int| 0 <= i < s.len() && s[i].0@ == k {
            let i = choose|i: int| 0 <= i < s.len() && s[i].0@ == k;
            if i < s.len() - 1 {
                assert(s.drop_last()[i].0@ == k);
            }
        }
    }
}

/// Entry lists with pairwise distinct titles.
pub open spec fn distinct_keys(s: Seq<(String, GameData)>) -> bool {
    forall|i: int, j: int| 0 <= i < j < s.len() ==> s[i].0@ != s[j].0@
}

/// With distinct titles, `map_of` maps each listed title to its entry.
pub proof fn lemma_map_of_lookup(s: Seq<(String, GameData)>, i: int)
    requires
        distinct_keys(s),
        0 <= i < s.len(),
    ensures
        map_of(s).contains_key(s[i].0@),
        map_of(s)[s[i].0@] == s[i].1@,
    decreases s.len(),
{
    lemma_map_of_dom(s, s[i].0@);
    if i < s.len() - 1 {
        assert(distinct_keys(s.drop_last()));
        assert(s.drop_last()[i].0@ == s[i].0@);
        lemma_map_of_lookup(s.drop_last(), i);
        assert(s[i].0@ != s.last().0@);
    }
}

/// Replacing the entry at a title rewrites the mapping at that title only.
pub proof fn lemma_map_of_update(s: Seq<(String, GameData)>, i: int, p: (String, GameData))
    requires
        distinct_keys(s),
        0 <= i < s.len(),
        p.0@ == s[i].0@,
    ensures
        map_of(s.update(i, p)) == map_of(s).insert(p.0@, p.1@),
    decreases s.len(),
{
    let t = s.update(i, p);
    if i == s.len() - 1 {
        assert(t.drop_last() =~= s.drop_last());
        assert(map_of(t) == map_of(s.drop_last()).insert(p.0@, p.1@));
        assert(map_of(s.drop_last()).insert(s.last().0@, s.last().1@).insert(p.0@, p.1@)
            =~= map_of(s.drop_last()).insert(p.0@, p.1@));
    } else {
        assert(t.drop_last() =~= s.drop_last().update(i, p));
        assert(distinct_keys(s.drop_last()));
        assert(s.drop_last()[i].0@ == s[i].0@);
        lemma_map_of_update(s.drop_last(), i, p);
        assert(t.last() == s.last());
        assert(map_of(t) == map_of(s.drop_last()).insert(p.0@, p.1@).insert(
            s.last().0@,
            s.last().1@,
        ));
        assert(s[i].0@ != s.last().0@);
        assert(map_of(s.drop_last()).insert(p.0@, p.1@).insert(s.last().0@, s.last().1@)
            =~= map_of(s.drop_last()).insert(s.last().0@, s.last().1@).insert(p.0@, p.1@));
    }
}

/// The upsert `scrape` performs for each kept item: write `r` into
/// `store`'s slot of `key`'s entry, creating the entry if the title is new,
/// leaving every other title and every other slot unchanged.
pub open spec fn spec_upsert(
    m: Map<Seq<char>, GameDataV>,
    store: Store,
    key: Seq<char>,
    r: StoreDataV,
) -> Map<Seq<char>, GameDataV> {
    let e = if m.contains_key(key) {
        m[key]
    } else {
        empty_entry()
    };
    m.insert(key, spec_set_slot(e, store, r))
}

/// The table the scrapers fill: a mapping from game title to entry, held
/// as a list of pairs with pairwise distinct titles.
pub struct AggregateMap {
    pub entries: Vec<(String, GameData)>,
}

impl View for AggregateMap {
    type V = Map<Seq<char>, GameDataV>;

    open spec fn view(&self) -> Map<Seq<char>, GameDataV> {
        map_of(self.entries@)
    }
}

impl AggregateMap {
    /// Titles are pairwise distinct.
    pub open spec fn wf(&self) -> bool {
        distinct_keys(self.entries@)
    }

    /// The empty table.
    pub fn new() -> (r: AggregateMap)
        ensures
            r.wf(),
            r@ == Map::<Seq<char>, GameDataV>::empty(),
    {
        AggregateMap { entries: Vec::new() }
    }

    /// How many titles the table holds.
    pub fn len(&self) -> (n: usize)
        requires
            self.wf(),
        ensures
            n == self@.dom().len(),
    {
        proof {
            lemma_entry_count(self.entries@);
        }
        self.entries.len()
    }

    /// The entry for a title, if the title is present.
    pub fn get(&self, name: &String) -> (r: Option<&GameData>)
        requires
            self.wf(),
        ensures
            match r {
                Some(d) => self@.contains_key(name@) && d@ == self@[name@],
                None => !self@.contains_key(name@),
            },
    {
        let n = self.entries.len();
        let mut i: usize = 0;
        while i < n
            invariant
                0 <= i <= n,
                n == self.entries@.len(),
                self.wf(),
                forall|j: int| 0 <= j < i ==> self.entries@[j].0@ != name@,
            decreases n - i,
        {
            if self.entries[i].0.eq(name) {
                proof {
                    lemma_map_of_lookup(self.entries@, i as int);
                }
                return Some(&self.entries[i].1);
            }
            i = i + 1;
        }
        proof {
            lemma_map_of_dom(self.entries@, name@);
        }
        None
    }

    /// Write `rec` into `store`'s slot of `name`'s entry, creating the
    /// entry if the title is new; no other title or slot changes.
    pub fn upsert(&mut self, store: Store, name: String, rec: StoreData)
        requires
            old(self).wf(),
        ensures
            final(self).wf(),
            final(self)@ == spec_upsert(old(self)@, store, name@, rec@),
    {
        let n = self.entries.len();
        let mut i: usize = 0;
        while i < n
            invariant
                0 <= i <= n,
                n == self.entries@.len(),
                self.wf(),
                self.entries@ == old(self).entries@,
                forall|j: int| 0 <= j < i ==> self.entries@[j].0@ != name@,
            decreases n - i,
        {
            if self.entries[i].0.eq(&name) {
                proof {
                    lemma_map_of_lookup(self.entries@, i as int);
                }
                let updated = self.entries[i].1.with_slot(store, rec);
                let ghost before = self.entries@;
                self.entries[i] = (name, updated);
                proof {
                    assert(self.entries@ == before.update(
                        i as int,
                        (self.entries@[i as int].0, self.entries@[i as int].1),
                    ));
                    lemma_map_of_update(before, i as int, self.entries@[i as int]);
                    assert(forall|a: int, b: int|
                        0 <= a < b < self.entries@.len() ==> self.entries@[a].0@
                            != self.entries@[b].0@);
                }
                return ;
            }
            i = i + 1;
        }
        proof {
            lemma_map_of_dom(self.entries@, name@);
        }
        let mut entry = GameData::new();
        match store {
            Store::G2a => {
                entry.g2a = Some(rec);
            },
            Store::Kinguin => {
                entry.kinguin = Some(rec);
            },
            Store::Cdkeys => {
                entry.cdkeys = Some(rec);
            },
        }
        let ghost before = self.entries@;
        self.entries.push((name, entry));
        proof {
            assert(self.entries@.drop_last() =~= before);
            assert(forall|a: int, b: int|
                0 <= a < b < self.entries@.len() ==> self.entries@[a].0@ != self.entries@[b].0@);
        }
    }

    /// The entry list itself, for flattening into records.
    pub fn entries(&self) -> (r: &Vec<(String, GameData)>)
        ensures
            r@ == self.entries@,
            map_of(r@) == self@,
    {
        &self.entries
    }
}

/// The map after a store has upserted a whole run of (title, record)
/// sightings, in order.
pub open spec fn apply_upserts(
    m: Map<Seq<char>, GameDataV>,
    store: Store,
    rs: Seq<(Seq<char>, StoreDataV)>,
) -> Map<Seq<char>, GameDataV>
    decreases rs.len(),
{
    if rs.len() == 0 {
        m
    } else {
        spec_upsert(apply_upserts(m, store, rs.drop_last()), store, rs.last().0, rs.last().1)
    }
}

/// An upsert sets exactly its own store's slot of its own title: the title
/// is present afterwards with `r` in `store`'s slot, the title's other
/// slots are as they were (absent slots of a new title stay absent), and
/// every other title's entry is untouched.
pub proof fn lemma_upsert_effect(
    m: Map<Seq<char>, GameDataV>,
    store: Store,
    key: Seq<char>,
    r: StoreDataV,
)
    ensures
        spec_upsert(m, store, key, r).contains_key(key),
        spec_slot(spec_upsert(m, store, key, r)[key], store) == Some(r),
        forall|s2: Store|
            s2 != store ==> spec_slot(#[trigger] spec_upsert(m, store, key, r)[key], s2)
                == spec_slot(
                if m.contains_key(key) {
                    m[key]
                } else {
                    empty_entry()
                },
                s2,
            ),
        forall|k2: Seq<char>|
            k2 != key ==> #[trigger] spec_upsert(m, store, key, r).contains_key(k2)
                == m.contains_key(k2),
        forall|k2: Seq<char>|
            k2 != key && m.contains_key(k2) ==> #[trigger] spec_upsert(m, store, key, r)[k2]
                == m[k2],
{
}

/// Two sightings of the same title from the same store leave only the
/// later record in that store's slot, and the rest of the table as one
/// sighting of the later record alone would leave it.
pub proof fn lemma_upsert_latest_wins(
    m: Map<Seq<char>, GameDataV>,
    store: Store,
    key: Seq<char>,
    r1: StoreDataV,
    r2: StoreDataV,
)
    ensures
        spec_upsert(spec_upsert(m, store, key, r1), store, key, r2) == spec_upsert(
            m,
            store,
            key,
            r2,
        ),
{
    let m1 = spec_upsert(m, store, key, r1);
    let e = if m.contains_key(key) {
        m[key]
    } else {
        empty_entry()
    };
    assert(spec_set_slot(spec_set_slot(e, store, r1), store, r2) == spec_set_slot(e, store, r2));
    assert(spec_upsert(m1, store, key, r2) =~= spec_upsert(m, store, key, r2));
}

/// Upserts of two different stores commute, whatever their titles: each
/// writes only its own slot.
pub proof fn lemma_upsert_comm(
    m: Map<Seq<char>, GameDataV>,
    s1: Store,
    k1: Seq<char>,
    r1: StoreDataV,
    s2: Store,
    k2: Seq<char>,
    r2: StoreDataV,
)
    requires
        s1 != s2,
    ensures
        spec_upsert(spec_upsert(m, s1, k1, r1), s2, k2, r2) == spec_upsert(
            spec_upsert(m, s2, k2, r2),
            s1,
            k1,
            r1,
        ),
{
    if k1 == k2 {
        let e = if m.contains_key(k1) {
            m[k1]
        } else {
            empty_entry()
        };
        assert(spec_set_slot(spec_set_slot(e, s1, r1), s2, r2) == spec_set_slot(
            spec_set_slot(e, s2, r2),
            s1,
            r1,
        ));
    }
    assert(spec_upsert(spec_upsert(m, s1, k1, r1), s2, k2, r2) =~= spec_upsert(
        spec_upsert(m, s2, k2, r2),
        s1,
        k1,
        r1,
    ));
}

/// A single upsert of one store commutes past a whole run of another
/// store's upserts.
proof fn lemma_upsert_comm_run(
    m: Map<Seq<char>, GameDataV>,
    s1: Store,
    k: Seq<char>,
    r: StoreDataV,
    s2: Store,
    rs2: Seq<(Seq<char>, StoreDataV)>,
)
    requires
        s1 != s2,
    ensures
        apply_upserts(spec_upsert(m, s1, k, r), s2, rs2) == spec_upsert(
            apply_upserts(m, s2, rs2),
            s1,
            k,
            r,
        ),
    decreases rs2.len(),
{
    if rs2.len() > 0 {
        lemma_upsert_comm_run(m, s1, k, r, s2, rs2.drop_last());
        lemma_upsert_comm(apply_upserts(m, s2, rs2.drop_last()), s1, k, r, s2, rs2.last().0,
            rs2.last().1);
    }
}

/// Merge commutativity: two stores' runs of upserts reach the same table
/// in either order, since each store only ever writes its own slot.
pub proof fn lemma_store_runs_commute(
    m: Map<Seq<char>, GameDataV>,
    s1: Store,
    rs1: Seq<(Seq<char>, StoreDataV)>,
    s2: Store,
    rs2: Seq<(Seq<char>, StoreDataV)>,
)
    requires
        s1 != s2,
    ensures
        apply_upserts(apply_upserts(m, s1, rs1), s2, rs2) == apply_upserts(
            apply_upserts(m, s2, rs2),
            s1,
            rs1,
        ),
    decreases rs1.len(),
{
    if rs1.len() > 0 {
        let rs1p = rs1.drop_last();
        let k = rs1.last().0;
        let r = rs1.last().1;
        lemma_upsert_comm_run(apply_upserts(m, s1, rs1p), s1, k, r, s2, rs2);
        lemma_store_runs_commute(m, s1, rs1p, s2, rs2);
    }
}

/// One store's slot of one title, or `None` where the title is absent.
pub open spec fn slot_of(m: Map<Seq<char>, GameDataV>, k: Seq<char>, store: Store) -> Option<
    StoreDataV,
> {
    if m.contains_key(k) {
        spec_slot(m[k], store)
    } else {
        None
    }
}

/// A store's whole run of upserts never removes a title, and leaves every
/// other store's slot of every title exactly as it was.
pub proof fn lemma_run_preserves_other_stores(
    m: Map<Seq<char>, GameDataV>,
    store: Store,
    rs: Seq<(Seq<char>, StoreDataV)>,
)
    ensures
        forall|k: Seq<char>|
            m.contains_key(k) ==> #[trigger] apply_upserts(m, store, rs).contains_key(k),
        forall|k: Seq<char>, s2: Store|
            s2 != store ==> #[trigger] slot_of(apply_upserts(m, store, rs), k, s2) == slot_of(
                m,
                k,
                s2,
            ),
    decreases rs.len(),
{
    if rs.len() > 0 {
        lemma_run_preserves_other_stores(m, store, rs.drop_last());
        let m1 = apply_upserts(m, store, rs.drop_last());
        let k1 = rs.last().0;
        let v1 = rs.last().1;
        lemma_upsert_effect(m1, store, k1, v1);
        assert forall|k: Seq<char>, s2: Store| s2 != store implies #[trigger] slot_of(
            apply_upserts(m, store, rs),
            k,
            s2,
        ) == slot_of(m, k, s2) by {
            assert(slot_of(m1, k, s2) == slot_of(m, k, s2));
            if k == k1 {
                assert(spec_slot(spec_upsert(m1, store, k1, v1)[k1], s2) == spec_slot(
                    if m1.contains_key(k1) {
                        m1[k1]
                    } else {
                        empty_entry()
                    },
                    s2,
                ));
            }
        }
    }
}

/// Three distinct stores' runs of upserts reach the same table in every
/// one of the six orders they could be scraped in.
pub proof fn lemma_three_store_orders_agree(
    m: Map<Seq<char>, GameDataV>,
    s1: Store,
    rs1: Seq<(Seq<char>, StoreDataV)>,
    s2: Store,
    rs2: Seq<(Seq<char>, StoreDataV)>,
    s3: Store,
    rs3: Seq<(Seq<char>, StoreDataV)>,
)
    requires
        s1 != s2,
        s1 != s3,
        s2 != s3,
    ensures
        apply_upserts(apply_upserts(apply_upserts(m, s1, rs1), s2, rs2), s3, rs3) == apply_upserts(
            apply_upserts(apply_upserts(m, s1, rs1), s3, rs3),
            s2,
            rs2,
        ),
        apply_upserts(apply_upserts(apply_upserts(m, s1, rs1), s2, rs2), s3, rs3) == apply_upserts(
            apply_upserts(apply_upserts(m, s2, rs2), s1, rs1),
            s3,
            rs3,
        ),
        apply_upserts(apply_upserts(apply_upserts(m, s1, rs1), s2, rs2), s3, rs3) == apply_upserts(
            apply_upserts(apply_upserts(m, s2, rs2), s3, rs3),
            s1,
            rs1,
        ),
        apply_upserts(apply_upserts(apply_upserts(m, s1, rs1), s2, rs2), s3, rs3) == apply_upserts(
            apply_upserts(apply_upserts(m, s3, rs3), s1, rs1),
            s2,
            rs2,
        ),
        apply_upserts(apply_upserts(apply_upserts(m, s1, rs1), s2, rs2), s3, rs3) == apply_upserts(
            apply_upserts(apply_upserts(m, s3, rs3), s2, rs2),
            s1,
            rs1,
        ),
{
    // adjacent swaps generate every order
    lemma_store_runs_commute(apply_upserts(m, s1, rs1), s2, rs2, s3, rs3);
    lemma_store_runs_commute(m, s1, rs1, s2, rs2);
    lemma_store_runs_commute(apply_upserts(m, s2, rs2), s1, rs1, s3, rs3);
    lemma_store_runs_commute(m, s1, rs1, s3, rs3);
    lemma_store_runs_commute(apply_upserts(m, s3, rs3), s1, rs1, s2, rs2);
}

/// With distinct titles the mapping has one title per listed entry.
pub proof fn lemma_entry_count(s: Seq<(String, GameData)>)
    requires
        distinct_keys(s),
    ensures
        map_of(s).dom().len() == s.len(),
        map_of(s).dom().finite(),
    decreases s.len(),
{
    if s.len() > 0 {
        assert(distinct_keys(s.drop_last()));
        lemma_entry_count(s.drop_last());
        lemma_map_of_dom(s.drop_last(), s.last().0@);
        assert(!map_of(s.drop_last()).contains_key(s.last().0@));
        assert(map_of(s).dom() =~= map_of(s.drop_last()).dom().insert(s.last().0@));
        vstd::set::axiom_set_insert_len(map_of(s.drop_last()).dom(), s.last().0@);
    }
}

} // verus!
