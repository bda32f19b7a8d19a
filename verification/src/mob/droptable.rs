//! Drop tables of monsters, the rolls that pick what drops, and the choice
//! of the MVP.

use vstd::prelude::*;
use std::collections::HashMap;
use crate::rng::GameRng;
use crate::map::drop_item::DropItem;
use crate::text::{parse_u32, spec_parse_u32};

verus! {

broadcast use vstd::std_specs::hash::group_hash_axioms;

/// One line of a drop table; `chance` is in hundredths of a percent.
#[derive(Debug, Clone, Copy, PartialEq, Eq, Structural)]
pub struct DropTableEntry {
    pub item_id: u32,
    pub min_amount: u16,
    pub max_amount: u16,
    pub chance: u32,
    pub is_zeny: bool,
    pub is_mvp_bonus: bool,
}

/// The drop table of one monster kind.
#[derive(Debug, Clone)]
pub struct MobDropTable {
    entries: Vec<DropTableEntry>,
}

impl MobDropTable {
    /// The lines of the table, in order.
    pub closed spec fn spec_entries(&self) -> Seq<DropTableEntry> {
        self.entries@
    }

    pub fn entries(&self) -> (e: &[DropTableEntry])
        ensures
            e@ == self.spec_entries(),
    {
        self.entries.as_slice()
    }

    pub fn new(entries: Vec<DropTableEntry>) -> (t: Self)
        ensures
            t.spec_entries() == entries@,
    {
        MobDropTable { entries }
    }
}

/// The table that entry `i` of a drop-table file gives is the one kept
/// for its monster: its key reads as `id` and no later key does.
pub open spec fn spec_last_for(entries: Seq<(String, Vec<DropTableEntry>)>, id: u32, i: int) -> bool {
    &&& 0 <= i < entries.len()
    &&& spec_parse_u32(entries[i].0@) == Some(id)
    &&& forall|j: int| i < j < entries.len() ==> spec_parse_u32(#[trigger] entries[j].0@) != Some(id)
}

fn copy_entries(v: &Vec<DropTableEntry>) -> (r: Vec<DropTableEntry>)
    ensures
        r@ == v@,
{
    let mut r: Vec<DropTableEntry> = Vec::new();
    let mut i: usize = 0;
    while i < v.len()
        invariant
            i <= v@.len(),
            r@ == v@.subrange(0, i as int),
        decreases v@.len() - i,
    {
        r.push(v[i]);
        i = i + 1;
    }
    assert(v@.subrange(0, v@.len() as int) =~= v@);
    r
}

/// Builds the drop tables that a drop-table file describes.
pub struct DropTableLoader;

impl DropTableLoader {
    /// The drop table of each monster, from the file's entries (a monster id
    /// as text, and its lines): a later entry for the same monster replaces
    /// an earlier one. Fails with the first key that is not a decimal `u32`.
    pub fn tables_from(entries: &Vec<(String, Vec<DropTableEntry>)>) -> (r: Result<HashMap<u32, MobDropTable>, String>)
        ensures
            match r {
                Err(k) => exists|i: int| 0 <= i < entries@.len() && spec_parse_u32(entries@[i].0@) is None
                    && k@ == entries@[i].0@
                    && forall|j: int| 0 <= j < i ==> spec_parse_u32(#[trigger] entries@[j].0@) is Some,
                Ok(m) => (forall|i: int| 0 <= i < entries@.len() ==> spec_parse_u32(#[trigger] entries@[i].0@) is Some)
                    && (forall|id: u32| #[trigger] m@.contains_key(id) <==>
                        exists|i: int| 0 <= i < entries@.len() && spec_parse_u32(#[trigger] entries@[i].0@) == Some(id))
                    && (forall|id: u32| #[trigger] m@.contains_key(id) ==>
                        exists|i: int| spec_last_for(entries@, id, i) && m@[id].spec_entries() == entries@[i].1@),
            },
    {
        let mut tables: HashMap<u32, MobDropTable> = HashMap::new();
        let mut i: usize = 0;
        while i < entries.len()
            invariant
                i <= entries@.len(),
                forall|j: int| 0 <= j < i ==> spec_parse_u32(#[trigger] entries@[j].0@) is Some,
                forall|id: u32| #[trigger] tables@.contains_key(id) <==>
                    exists|j: int| 0 <= j < i && spec_parse_u32(#[trigger] entries@[j].0@) == Some(id),
                forall|id: u32| #[trigger] tables@.contains_key(id) ==>
                    exists|j: int| spec_last_for(entries@.subrange(0, i as int), id, j) && tables@[id].spec_entries() == entries@[j].1@,
            decreases entries@.len() - i,
        {
            let id = match parse_u32(entries[i].0.as_str()) {
                Some(id) => id,
                None => {
                    return Err(entries[i].0.clone());
                },
            };
            let ghost before = tables@;
            tables.insert(id, MobDropTable::new(copy_entries(&entries[i].1)));
            proof {
                let pre = entries@.subrange(0, i as int);
                let post = entries@.subrange(0, i + 1);
                assert forall|id2: u32| #[trigger] tables@.contains_key(id2) <==>
                    exists|j: int| 0 <= j < i + 1 && spec_parse_u32(#[trigger] entries@[j].0@) == Some(id2) by {
                    if id2 != id && tables@.contains_key(id2) {
                        assert(before.contains_key(id2));
                    }
                    if id2 == id {
                        assert(spec_parse_u32(entries@[i as int].0@) == Some(id2));
                    }
                }
                assert forall|id2: u32| #[trigger] tables@.contains_key(id2) implies
                    exists|j: int| spec_last_for(post, id2, j) && tables@[id2].spec_entries() == entries@[j].1@ by {
                    if id2 == id {
                        assert(post[i as int] == entries@[i as int]);
                        assert(spec_last_for(post, id2, i as int));
                    } else {
                        assert(before.contains_key(id2));
                        let j = choose|j: int| spec_last_for(pre, id2, j) && before[id2].spec_entries() == entries@[j].1@;
                        assert(pre[j] == entries@[j]);
                        assert forall|t: int| j < t < post.len() implies spec_parse_u32(#[trigger] post[t].0@) != Some(id2) by {
                            if t < i {
                                assert(post[t] == pre[t]);
                            }
                        }
                        assert(spec_last_for(post, id2, j));
                    }
                }
            }
            i = i + 1;
        }
        proof {
            assert(entries@.subrange(0, entries@.len() as int) =~= entries@);
        }
        Ok(tables)
    }
}

/// Whether a table line can drop at all: MVP bonus lines need an MVP.
pub open spec fn spec_eligible(e: DropTableEntry, has_mvp: bool) -> bool {
    !e.is_mvp_bonus || has_mvp
}

/// `d` is a drop made from line `e`: same item, placed nowhere yet, and
/// exactly `min_amount` items when the line fixes the amount.
pub open spec fn spec_drop_from(d: DropItem, e: DropTableEntry) -> bool {
    &&& d.item_id == e.item_id
    &&& d.x == 0 && d.y == 0 && d.map_name@.len() == 0
    &&& e.min_amount == e.max_amount ==> d.amount == e.min_amount
}

/// `drops` came from the lines `idx` of `entries`, taken in order, each
/// eligible and each drop made from its line.
pub open spec fn spec_drops_follow(entries: Seq<DropTableEntry>, has_mvp: bool, drops: Seq<DropItem>, idx: Seq<int>) -> bool {
    &&& idx.len() == drops.len()
    &&& forall|k: int| 0 <= k < idx.len() ==> 0 <= #[trigger] idx[k] < entries.len()
    &&& forall|k1: int, k2: int| 0 <= k1 < k2 < idx.len() ==> #[trigger] idx[k1] < #[trigger] idx[k2]
    &&& forall|k: int| 0 <= k < idx.len() ==> spec_eligible(entries[#[trigger] idx[k]], has_mvp)
        && spec_drop_from(drops[k], entries[idx[k]])
}

/// The (item, amount) pairs that the first `n` lines of `entries` give for
/// the rolls `rolls` and rolled amounts `amounts`: line `i` drops when it is
/// eligible and `rolls[i]` falls under its chance, `min_amount` items when
/// the line fixes the amount and `amounts[i]` otherwise; in line order.
pub open spec fn spec_rolled_drops(entries: Seq<DropTableEntry>, has_mvp: bool, rolls: Seq<u32>, amounts: Seq<u16>, n: int) -> Seq<(u32, u16)>
    decreases n,
{
    if n <= 0 {
        Seq::empty()
    } else {
        let e = entries[n - 1];
        let before = spec_rolled_drops(entries, has_mvp, rolls, amounts, n - 1);
        if spec_eligible(e, has_mvp) && rolls[n - 1] < e.chance {
            before.push((e.item_id, if e.min_amount == e.max_amount { e.min_amount } else { amounts[n - 1] }))
        } else {
            before
        }
    }
}

/// A rolled amount lies between the line's bounds (when they are in order).
pub open spec fn spec_amount_in_bounds(e: DropTableEntry, a: u16) -> bool {
    e.min_amount <= e.max_amount ==> e.min_amount <= a <= e.max_amount
}

/// `drops` is what the lines `entries` give for one roll and one rolled
/// amount per line (each amount within its line's bounds), as
/// `spec_rolled_drops` describes, each drop placed nowhere yet.
pub open spec fn spec_resolved(entries: Seq<DropTableEntry>, has_mvp: bool, rolls: Seq<u32>, amounts: Seq<u16>, drops: Seq<DropItem>) -> bool {
    let rolled = spec_rolled_drops(entries, has_mvp, rolls, amounts, entries.len() as int);
    &&& rolls.len() == entries.len()
    &&& amounts.len() == entries.len()
    &&& forall|k: int| 0 <= k < entries.len() ==> spec_amount_in_bounds(entries[k], #[trigger] amounts[k])
    &&& drops.len() == rolled.len()
    &&& forall|k: int| 0 <= k < drops.len() ==> (#[trigger] drops[k]).item_id == rolled[k].0 && drops[k].amount == rolled[k].1
        && drops[k].x == 0 && drops[k].y == 0 && drops[k].map_name@.len() == 0
}

/// `idx` gives, for each pair of `spec_rolled_drops(.., n)`, the line it came from.
pub open spec fn spec_rolled_indices(entries: Seq<DropTableEntry>, has_mvp: bool, rolls: Seq<u32>, amounts: Seq<u16>, n: int, idx: Seq<int>) -> bool {
    let rolled = spec_rolled_drops(entries, has_mvp, rolls, amounts, n);
    &&& idx.len() == rolled.len()
    &&& forall|k: int| 0 <= k < idx.len() ==> 0 <= #[trigger] idx[k] < n
    &&& forall|k1: int, k2: int| 0 <= k1 < k2 < idx.len() ==> #[trigger] idx[k1] < #[trigger] idx[k2]
    &&& forall|k: int| 0 <= k < idx.len() ==> spec_eligible(entries[#[trigger] idx[k]], has_mvp)
        && rolled[k].0 == entries[idx[k]].item_id
        && (entries[idx[k]].min_amount == entries[idx[k]].max_amount ==> rolled[k].1 == entries[idx[k]].min_amount)
}

proof fn lemma_rolled_drops_follow(entries: Seq<DropTableEntry>, has_mvp: bool, rolls: Seq<u32>, amounts: Seq<u16>, n: int) -> (idx: Seq<int>)
    requires
        0 <= n <= entries.len(),
    ensures
        spec_rolled_indices(entries, has_mvp, rolls, amounts, n, idx),
{
    lemma_drop_iff_roll_under_chance(entries, has_mvp, rolls, amounts, n)
}

/// Rolling the first `n` lines drops exactly the eligible lines whose roll
/// falls under their chance, in line order, each as its line's item in the
/// line's fixed amount or, where the bounds differ, the rolled amount: `idx`
/// names the line of each drop.
pub proof fn lemma_drop_iff_roll_under_chance(entries: Seq<DropTableEntry>, has_mvp: bool, rolls: Seq<u32>, amounts: Seq<u16>, n: int) -> (idx: Seq<int>)
    requires
        0 <= n <= entries.len(),
    ensures
        spec_rolled_indices(entries, has_mvp, rolls, amounts, n, idx),
        forall|i: int| 0 <= i < n ==> (idx.contains(i) <==> spec_eligible(entries[i], has_mvp) && rolls[i] < entries[i].chance),
        forall|k: int| 0 <= k < idx.len() ==> #[trigger] spec_rolled_drops(entries, has_mvp, rolls, amounts, n)[k]
            == (entries[idx[k]].item_id, if entries[idx[k]].min_amount == entries[idx[k]].max_amount {
                entries[idx[k]].min_amount } else { amounts[idx[k]] }),
    decreases n,
{
    if n <= 0 {
        Seq::empty()
    } else {
        let prev = lemma_drop_iff_roll_under_chance(entries, has_mvp, rolls, amounts, n - 1);
        let e = entries[n - 1];
        let before = spec_rolled_drops(entries, has_mvp, rolls, amounts, n - 1);
        let rolled = spec_rolled_drops(entries, has_mvp, rolls, amounts, n);
        if spec_eligible(e, has_mvp) && rolls[n - 1] < e.chance {
            let idx = prev.push(n - 1);
            assert forall|k: int| 0 <= k < idx.len() implies spec_eligible(entries[#[trigger] idx[k]], has_mvp)
                && rolled[k].0 == entries[idx[k]].item_id
                && (entries[idx[k]].min_amount == entries[idx[k]].max_amount ==> rolled[k].1 == entries[idx[k]].min_amount) by {
                if k < prev.len() {
                    assert(idx[k] == prev[k]);
                    assert(rolled[k] == before[k]);
                }
            }
            assert forall|k1: int, k2: int| 0 <= k1 < k2 < idx.len() implies #[trigger] idx[k1] < #[trigger] idx[k2] by {
                assert(idx[k1] == prev[k1]);
                if k2 < prev.len() {
                    assert(idx[k2] == prev[k2]);
                }
            }
            assert forall|k: int| 0 <= k < idx.len() implies 0 <= #[trigger] idx[k] < n by {
                if k < prev.len() {
                    assert(idx[k] == prev[k]);
                }
            }
            assert forall|i: int| 0 <= i < n implies (idx.contains(i) <==> spec_eligible(entries[i], has_mvp) && rolls[i] < entries[i].chance) by {
                if i < n - 1 {
                    if idx.contains(i) {
                        let k = choose|k: int| 0 <= k < idx.len() && idx[k] == i;
                        assert(k < prev.len());
                        assert(prev[k] == i);
                    }
                    if prev.contains(i) {
                        let k = choose|k: int| 0 <= k < prev.len() && prev[k] == i;
                        assert(idx[k] == i);
                    }
                } else {
                    assert(idx[idx.len() - 1] == i);
                }
            }
            assert forall|k: int| 0 <= k < idx.len() implies #[trigger] rolled[k]
                == (entries[idx[k]].item_id, if entries[idx[k]].min_amount == entries[idx[k]].max_amount {
                    entries[idx[k]].min_amount } else { amounts[idx[k]] }) by {
                if k < prev.len() {
                    assert(idx[k] == prev[k]);
                    assert(rolled[k] == before[k]);
                }
            }
            idx
        } else {
            assert forall|i: int| 0 <= i < n implies (prev.contains(i) <==> spec_eligible(entries[i], has_mvp) && rolls[i] < entries[i].chance) by {
                if i == n - 1 && prev.contains(i) {
                    let k = choose|k: int| 0 <= k < prev.len() && prev[k] == i;
                }
            }
            prev
        }
    }
}

/// The items and amounts that drop from `table` for the given rolls (one
/// per line, in `0..10000` for a chance in hundredths of a percent) and
/// rolled amounts (one per line, used where the line's bounds differ).
pub fn drops_for_rolls(table: &MobDropTable, has_mvp: bool, rolls: &Vec<u32>, amounts: &Vec<u16>) -> (d: Vec<(u32, u16)>)
    requires
        rolls@.len() == table.spec_entries().len(),
        amounts@.len() == table.spec_entries().len(),
    ensures
        d@ == spec_rolled_drops(table.spec_entries(), has_mvp, rolls@, amounts@, table.spec_entries().len() as int),
{
    let entries = table.entries();
    let mut d: Vec<(u32, u16)> = Vec::new();
    let mut i: usize = 0;
    while i < entries.len()
        invariant
            i <= entries@.len(),
            entries@ == table.spec_entries(),
            rolls@.len() == entries@.len(),
            amounts@.len() == entries@.len(),
            d@ == spec_rolled_drops(entries@, has_mvp, rolls@, amounts@, i as int),
        decreases entries@.len() - i,
    {
        let e = entries[i];
        if !(e.is_mvp_bonus && !has_mvp) && rolls[i] < e.chance {
            let amount: u16 = if e.min_amount == e.max_amount { e.min_amount } else { amounts[i] };
            d.push((e.item_id, amount));
        }
        i = i + 1;
    }
    d
}

/// `roll` and `amount` are what rolling line `e` with `rng` gave: an
/// eligible line's roll is one `rng.rand_bp(chance)` handed out, and when
/// that roll drops the line and its bounds differ, the amount is one
/// `rng.rand_range(min, max)` handed out; a line whose amount is fixed or
/// that does not drop keeps `min_amount`.
pub open spec fn spec_line_rolled_by<R: GameRng>(rng: R, e: DropTableEntry, has_mvp: bool, roll: u32, amount: u16) -> bool {
    &&& spec_eligible(e, has_mvp) ==> rng.bp_roll(e.chance, roll)
    &&& (spec_eligible(e, has_mvp) && roll < e.chance && e.min_amount != e.max_amount) ==>
        exists|r: u32| #[trigger] rng.range_roll(e.min_amount as u32, e.max_amount as u32, r) && amount == r as u16
    &&& !(spec_eligible(e, has_mvp) && roll < e.chance && e.min_amount != e.max_amount) ==> amount == e.min_amount
}

/// `rolls` and `amounts` are, line by line, what rolling `entries` with `rng` gave.
pub open spec fn spec_rolled_by<R: GameRng>(rng: R, entries: Seq<DropTableEntry>, has_mvp: bool, rolls: Seq<u32>, amounts: Seq<u16>) -> bool {
    &&& rolls.len() == entries.len() && amounts.len() == entries.len()
    &&& forall|k: int| 0 <= k < entries.len() ==> #[trigger] spec_line_rolled_by(rng, entries[k], has_mvp, rolls[k], amounts[k])
}

/// Rolls drop tables.
pub struct DropResolver;

impl DropResolver {
    /// Rolls each line of `table` once, in order; MVP bonus lines take part
    /// only when there is an MVP. A line drops when its roll falls under its
    /// chance; the amount is rolled between the line's bounds unless they
    /// are equal. The drops are placed by the caller.
    pub fn resolve<R: GameRng>(&self, table: &MobDropTable, rng: &R, mob_level: u16, mvp_id: Option<u128>) -> (drops: Vec<DropItem>)
        ensures
            exists|idx: Seq<int>| #[trigger] spec_drops_follow(table.spec_entries(), mvp_id is Some, drops@, idx),
            exists|rolls: Seq<u32>, amounts: Seq<u16>| #[trigger] spec_resolved(table.spec_entries(), mvp_id is Some, rolls, amounts, drops@),
            exists|rolls: Seq<u32>, amounts: Seq<u16>| #[trigger] spec_resolved(table.spec_entries(), mvp_id is Some, rolls, amounts, drops@)
                && spec_rolled_by(*rng, table.spec_entries(), mvp_id is Some, rolls, amounts),
    {
        let entries = table.entries();
        let mut rolls: Vec<u32> = Vec::new();
        let mut amounts: Vec<u16> = Vec::new();
        let mut i: usize = 0;
        while i < entries.len()
            invariant
                i <= entries@.len(),
                entries@ == table.spec_entries(),
                rolls@.len() == i,
                amounts@.len() == i,
                forall|k: int| 0 <= k < i ==> spec_amount_in_bounds(entries@[k], #[trigger] amounts@[k]),
                forall|k: int| 0 <= k < i ==> #[trigger] spec_line_rolled_by(*rng, entries@[k], mvp_id is Some, rolls@[k], amounts@[k]),
            decreases entries@.len() - i,
        {
            let entry = entries[i];
            let mut roll: u32 = 0;
            let mut amount: u16 = entry.min_amount;
            if !(entry.is_mvp_bonus && mvp_id.is_none()) {
                roll = rng.rand_bp(entry.chance);
                if roll < entry.chance && entry.min_amount != entry.max_amount {
                    amount = rng.rand_range(entry.min_amount as u32, entry.max_amount as u32) as u16;
                }
            }
            assert(spec_line_rolled_by(*rng, entry, mvp_id is Some, roll, amount));
            rolls.push(roll);
            amounts.push(amount);
            i = i + 1;
        }
        let rolled = drops_for_rolls(table, mvp_id.is_some(), &rolls, &amounts);
        let mut drops: Vec<DropItem> = Vec::new();
        let mut j: usize = 0;
        while j < rolled.len()
            invariant
                j <= rolled@.len(),
                drops@.len() == j,
                forall|k: int| 0 <= k < j ==> (#[trigger] drops@[k]).item_id == rolled@[k].0 && drops@[k].amount == rolled@[k].1
                    && drops@[k].x == 0 && drops@[k].y == 0 && drops@[k].map_name@.len() == 0,
            decreases rolled@.len() - j,
        {
            let (item_id, amount) = rolled[j];
            drops.push(DropItem {
                id: crate::clock::new_uuid(),
                item_id,
                amount,
                x: 0,
                y: 0,
                map_name: String::new(),
                dropped_at: crate::clock::now_millis(),
            });
            j = j + 1;
        }
        proof {
            let n = entries@.len() as int;
            let idx = lemma_rolled_drops_follow(entries@, mvp_id is Some, rolls@, amounts@, n);
            assert(spec_drops_follow(table.spec_entries(), mvp_id is Some, drops@, idx));
            assert(spec_resolved(table.spec_entries(), mvp_id is Some, rolls@, amounts@, drops@));
            assert(spec_rolled_by(*rng, table.spec_entries(), mvp_id is Some, rolls@, amounts@));
        }
        drops
    }
}

/// Picks the MVP of a fight.
pub struct MVPResolver;

impl MVPResolver {
    /// The player who dealt the most damage; when several tie, one of them.
    pub fn pick_mvp(damage_log: &HashMap<u128, u64>) -> (r: Option<u128>)
        ensures
            r is None <==> damage_log@.dom().len() == 0,
            r matches Some(p) ==> damage_log@.contains_key(p)
                && forall|q: u128| #[trigger] damage_log@.contains_key(q) ==> damage_log@[q] <= damage_log@[p],
    {
        let mut best: Option<u128> = None;
        let mut best_damage: u64 = 0;
        for k in it: damage_log.keys()
            invariant
                forall|k2: u128| #[trigger] damage_log@.contains_key(k2) ==> exists|j: int| 0 <= j < it.seq().len() && *it.seq()[j] == k2,
                it.seq().len() == damage_log@.dom().len(),
                best is None <==> it.index() == 0,
                best matches Some(p) ==> damage_log@.contains_key(p) && damage_log@[p] == best_damage,
                forall|j: int| 0 <= j < it.index() && #[trigger] damage_log@.contains_key(*it.seq()[j]) ==>
                    damage_log@[*it.seq()[j]] <= best_damage,
        {
            match damage_log.get(k) {
                Some(d) => {
                    if best.is_none() || *d >= best_damage {
                        best = Some(*k);
                        best_damage = *d;
                    }
                },
                None => {
                    if best.is_none() {
                        best = Some(*k);
                    }
                },
            }
        }
        proof {
            if damage_log@.dom().len() > 0 {
                assert(best is Some);
            }
        }
        best
    }
}

} // verus!
