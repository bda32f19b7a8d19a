//! Items lying on the ground of a map, and their expiry.

use vstd::prelude::*;
use std::collections::HashMap;
use crate::text::{owned, str_eq};
use crate::clock::{now_millis, new_uuid};
use crate::map::channel::{ChannelBus, EntityIds, GameEvent, map_channel_name};

verus! {

broadcast use vstd::std_specs::hash::group_hash_axioms;

/// How long an item stays on the ground, in seconds.
pub const DROP_TTL_SECS: u64 = 300;

/// An item on the ground; `dropped_at` is in milliseconds.
#[derive(Debug)]
pub struct DropItem {
    pub id: u128,
    pub item_id: u32,
    pub amount: u16,
    pub x: u16,
    pub y: u16,
    pub map_name: String,
    pub dropped_at: u64,
}

impl Clone for DropItem {
    fn clone(&self) -> (r: Self)
        ensures
            r.id == self.id && r.item_id == self.item_id && r.amount == self.amount,
            r.x == self.x && r.y == self.y && r.map_name@ == self.map_name@ && r.dropped_at == self.dropped_at,
    {
        DropItem {
            id: self.id,
            item_id: self.item_id,
            amount: self.amount,
            x: self.x,
            y: self.y,
            map_name: self.map_name.clone(),
            dropped_at: self.dropped_at,
        }
    }
}

/// Whether a drop made at `dropped_at` has expired at `now` (both in
/// milliseconds): more than `DROP_TTL_SECS` whole seconds have passed.
pub open spec fn spec_expired(dropped_at: u64, now: u64) -> bool {
    now >= dropped_at && (now - dropped_at) / 1000 > DROP_TTL_SECS
}

/// Picking up an item right after putting it down hands back that item and
/// leaves the other items as they were.
pub proof fn lemma_add_then_pickup(drops: Map<u128, DropItem>, id: u128, d: DropItem)
    ensures
        drops.insert(id, d).contains_key(id) && drops.insert(id, d)[id] == d,
        drops.insert(id, d).remove(id) == drops.remove(id),
{
    assert(drops.insert(id, d).remove(id) =~= drops.remove(id));
}

/// `b` is a copy of the item `a`.
pub open spec fn spec_same_drop(a: DropItem, b: DropItem) -> bool {
    &&& a.id == b.id && a.item_id == b.item_id && a.amount == b.amount
    &&& a.x == b.x && a.y == b.y && a.map_name@ == b.map_name@ && a.dropped_at == b.dropped_at
}

/// `v` holds, through the distinct drop ids `ks`, copies of items of
/// `drops` that lie on `map_name`.
pub open spec fn spec_copies_of(drops: Map<u128, DropItem>, map_name: Seq<char>, v: Seq<DropItem>, ks: Seq<u128>) -> bool {
    &&& ks.len() == v.len()
    &&& ks.no_duplicates()
    &&& forall|i: int| 0 <= i < v.len() ==> drops.contains_key(ks[i]) && drops[ks[i]].map_name@ == map_name
        && spec_same_drop(drops[ks[i]], #[trigger] v[i])
}

/// `v` lists, through the distinct drop ids `ks`, a copy of each item of
/// `drops` that lies on `map_name`, and nothing else.
pub open spec fn spec_drops_listed(drops: Map<u128, DropItem>, map_name: Seq<char>, v: Seq<DropItem>, ks: Seq<u128>) -> bool {
    &&& spec_copies_of(drops, map_name, v, ks)
    &&& forall|k: u128| #[trigger] drops.contains_key(k) && drops[k].map_name@ == map_name ==> ks.contains(k)
}

/// The items on the ground, by drop id.
pub struct DropManager {
    drops: HashMap<u128, DropItem>,
}

impl DropManager {
    /// The drops, by id.
    pub closed spec fn spec_drops(&self) -> Map<u128, DropItem> {
        self.drops@
    }

    pub fn new() -> (m: Self)
        ensures
            m.spec_drops() == Map::<u128, DropItem>::empty(),
    {
        DropManager { drops: HashMap::new() }
    }

    /// Puts an item on the ground now, under a fresh random id, which it returns.
    pub fn add(&mut self, item_id: u32, amount: u16, x: u16, y: u16, map_name: &str) -> (id: u128)
        ensures
            final(self).spec_drops().dom() == old(self).spec_drops().dom().insert(id),
            forall|k: u128| k != id && #[trigger] old(self).spec_drops().contains_key(k) ==>
                final(self).spec_drops()[k] == old(self).spec_drops()[k],
            ({
                let d = final(self).spec_drops()[id];
                d.id == id && d.item_id == item_id && d.amount == amount && d.x == x && d.y == y && d.map_name@ == map_name@
            }),
    {
        let now = now_millis();
        self.add_at(item_id, amount, x, y, map_name, now)
    }

    /// Puts an item on the ground at time `now`, under a fresh random id, which it returns.
    pub fn add_at(&mut self, item_id: u32, amount: u16, x: u16, y: u16, map_name: &str, now: u64) -> (id: u128)
        ensures
            final(self).spec_drops().dom() == old(self).spec_drops().dom().insert(id),
            forall|k: u128| k != id && #[trigger] old(self).spec_drops().contains_key(k) ==>
                final(self).spec_drops()[k] == old(self).spec_drops()[k],
            ({
                let d = final(self).spec_drops()[id];
                d.id == id && d.item_id == item_id && d.amount == amount && d.x == x && d.y == y
                    && d.map_name@ == map_name@ && d.dropped_at == now
            }),
    {
        let id = new_uuid();
        let drop = DropItem { id, item_id, amount, x, y, map_name: owned(map_name), dropped_at: now };
        self.drops.insert(id, drop);
        proof {
            assert(self.drops@.dom() =~= old(self).drops@.dom().insert(id));
        }
        id
    }

    /// Takes an item off the ground.
    pub fn pickup(&mut self, drop_id: u128) -> (r: Option<DropItem>)
        ensures
            final(self).spec_drops() == old(self).spec_drops().remove(drop_id),
            r == (if old(self).spec_drops().contains_key(drop_id) { Some(old(self).spec_drops()[drop_id]) } else { None }),
    {
        self.drops.remove(&drop_id)
    }

    /// An item lying at `(x, y)` on `map_name`, if any.
    pub fn find_at_position(&self, x: u16, y: u16, map_name: &str) -> (r: Option<DropItem>)
        ensures
            r matches Some(d) ==> exists|k: u128| #[trigger] self.spec_drops().contains_key(k)
                && self.spec_drops()[k].id == d.id && self.spec_drops()[k].item_id == d.item_id
                && self.spec_drops()[k].amount == d.amount && d.x == x && d.y == y && d.map_name@ == map_name@
                && self.spec_drops()[k].x == x && self.spec_drops()[k].y == y && self.spec_drops()[k].map_name@ == map_name@,
            r is None ==> forall|k: u128| #[trigger] self.spec_drops().contains_key(k) ==>
                !(self.spec_drops()[k].x == x && self.spec_drops()[k].y == y && self.spec_drops()[k].map_name@ == map_name@),
    {
        let mut found: Option<DropItem> = None;
        for k in it: self.drops.keys()
            invariant
                found is None ==> forall|j: int| 0 <= j < it.index() ==> {
                    let d = #[trigger] self.spec_drops()[*it.seq()[j]];
                    !(d.x == x && d.y == y && d.map_name@ == map_name@)
                },
                forall|k2: u128| #[trigger] self.spec_drops().contains_key(k2) ==> exists|j: int| 0 <= j < it.seq().len() && *it.seq()[j] == k2,
                found matches Some(d) ==> exists|kk: u128| #[trigger] self.spec_drops().contains_key(kk)
                    && self.spec_drops()[kk].id == d.id && self.spec_drops()[kk].item_id == d.item_id
                    && self.spec_drops()[kk].amount == d.amount && d.x == x && d.y == y && d.map_name@ == map_name@
                    && self.spec_drops()[kk].x == x && self.spec_drops()[kk].y == y && self.spec_drops()[kk].map_name@ == map_name@,
        {
            if found.is_none() {
                match self.drops.get(k) {
                    Some(d) => {
                        if d.x == x && d.y == y && str_eq(d.map_name.as_str(), map_name) {
                            found = Some(d.clone());
                            assert(self.spec_drops().contains_key(*k) && self.spec_drops()[*k] == *d);
                        }
                    },
                    None => {},
                }
            }
        }
        found
    }

    /// The items lying on `map_name`, each once, in no particular order.
    pub fn get_drops_for_map(&self, map_name: &str) -> (v: Vec<DropItem>)
        ensures
            exists|ks: Seq<u128>| #[trigger] spec_drops_listed(self.spec_drops(), map_name@, v@, ks),
    {
        let mut v: Vec<DropItem> = Vec::new();
        let mut ks: Ghost<Seq<u128>> = Ghost(Seq::empty());
        let ghost drops = self.spec_drops();
        for k in it: self.drops.keys()
            invariant
                drops == self.spec_drops(),
                it.seq().no_duplicates(),
                forall|k2: u128| #[trigger] drops.contains_key(k2) ==> exists|j: int| 0 <= j < it.seq().len() && *it.seq()[j] == k2,
                spec_copies_of(drops, map_name@, v@, ks@),
                forall|j: int| it.index() <= j < it.seq().len() ==> !ks@.contains(*#[trigger] it.seq()[j]),
                forall|k2: u128| #[trigger] drops.contains_key(k2) && drops[k2].map_name@ == map_name@ ==>
                    ks@.contains(k2) || exists|j: int| it.index() <= j < it.seq().len() && *it.seq()[j] == k2,
        {
            let ghost idx = it.index();
            assert(*it.seq()[idx] == *k);
            match self.drops.get(k) {
                Some(d) => {
                    if str_eq(d.map_name.as_str(), map_name) {
                        let ghost old_v = v@;
                        let ghost old_ks = ks@;
                        v.push(d.clone());
                        ks = Ghost(ks@.push(*k));
                        proof {
                            assert(drops.contains_key(*k) && drops[*k] == *d);
                            assert(!old_ks.contains(*k));
                            assert forall|i1: int, i2: int| 0 <= i1 < ks@.len() && 0 <= i2 < ks@.len() && i1 != i2
                                implies ks@[i1] != ks@[i2] by {
                                if i2 == ks@.len() - 1 {
                                    assert(old_ks[i1] == ks@[i1]);
                                    assert(old_ks.contains(ks@[i1]));
                                } else if i1 == ks@.len() - 1 {
                                    assert(old_ks[i2] == ks@[i2]);
                                    assert(old_ks.contains(ks@[i2]));
                                } else {
                                    assert(old_ks[i1] == ks@[i1] && old_ks[i2] == ks@[i2]);
                                }
                            }
                            assert(ks@.no_duplicates());
                            assert forall|i: int| #![trigger v@[i]] #![trigger ks@[i]] 0 <= i < v@.len() implies drops.contains_key(ks@[i])
                                && drops[ks@[i]].map_name@ == map_name@ && spec_same_drop(drops[ks@[i]], v@[i]) by {
                                if i < old_v.len() {
                                    assert(v@[i] == old_v[i]);
                                    assert(ks@[i] == old_ks[i]);
                                }
                            }
                            assert(spec_copies_of(drops, map_name@, v@, ks@));
                            assert forall|j: int| idx + 1 <= j < it.seq().len() implies !ks@.contains(*#[trigger] it.seq()[j]) by {
                                assert(it.seq()[j] != it.seq()[idx]);
                                if ks@.contains(*it.seq()[j]) {
                                    let i = choose|i: int| 0 <= i < ks@.len() && ks@[i] == *it.seq()[j];
                                    if i < ks@.len() - 1 { assert(old_ks[i] == ks@[i]); assert(old_ks.contains(ks@[i])); }
                                }
                            }
                            assert forall|k2: u128| #[trigger] drops.contains_key(k2) && drops[k2].map_name@ == map_name@ implies
                                ks@.contains(k2) || exists|j: int| idx + 1 <= j < it.seq().len() && *it.seq()[j] == k2 by {
                                if old_ks.contains(k2) {
                                    let i = choose|i: int| 0 <= i < old_ks.len() && old_ks[i] == k2;
                                    assert(ks@[i] == old_ks[i]);
                                } else if k2 == *k {
                                    assert(ks@[ks@.len() - 1] == *k);
                                } else {
                                    let j = choose|j: int| idx <= j < it.seq().len() && *it.seq()[j] == k2;
                                    assert(j != idx);
                                }
                            }
                        }
                    } else {
                        proof {
                            assert forall|j: int| idx + 1 <= j < it.seq().len() implies !ks@.contains(*#[trigger] it.seq()[j]) by {
                            }
                            assert forall|k2: u128| #[trigger] drops.contains_key(k2) && drops[k2].map_name@ == map_name@ implies
                                ks@.contains(k2) || exists|j: int| idx + 1 <= j < it.seq().len() && *it.seq()[j] == k2 by {
                                if !ks@.contains(k2) {
                                    let j = choose|j: int| idx <= j < it.seq().len() && *it.seq()[j] == k2;
                                    assert(j != idx);
                                }
                            }
                        }
                    }
                },
                None => {
                    proof {
                        assert forall|j: int| idx + 1 <= j < it.seq().len() implies !ks@.contains(*#[trigger] it.seq()[j]) by {
                        }
                        assert forall|k2: u128| #[trigger] drops.contains_key(k2) && drops[k2].map_name@ == map_name@ implies
                            ks@.contains(k2) || exists|j: int| idx + 1 <= j < it.seq().len() && *it.seq()[j] == k2 by {
                            if !ks@.contains(k2) {
                                let j = choose|j: int| idx <= j < it.seq().len() && *it.seq()[j] == k2;
                                assert(j != idx);
                            }
                        }
                    }
                },
            }
        }
        proof {
            assert(spec_drops_listed(drops, map_name@, v@, ks@));
        }
        v
    }

    /// Removes the items that have expired at `now` (milliseconds) and
    /// returns their ids.
    pub fn cleanup_expired(&mut self, now: u64) -> (expired: Vec<u128>)
        ensures
            forall|k: u128| #[trigger] final(self).spec_drops().contains_key(k) <==>
                old(self).spec_drops().contains_key(k) && !spec_expired(old(self).spec_drops()[k].dropped_at, now),
            forall|k: u128| #[trigger] final(self).spec_drops().contains_key(k) ==> final(self).spec_drops()[k] == old(self).spec_drops()[k],
            forall|k: u128| expired@.contains(k) <==>
                old(self).spec_drops().contains_key(k) && spec_expired(old(self).spec_drops()[k].dropped_at, now),
    {
        let mut expired: Vec<u128> = Vec::new();
        for k in it: self.drops.keys()
            invariant
                forall|k2: u128| #[trigger] self.spec_drops().contains_key(k2) ==> exists|j: int| 0 <= j < it.seq().len() && *it.seq()[j] == k2,
                forall|k2: u128| expired@.contains(k2) <==> exists|j: int| 0 <= j < it.index() && *it.seq()[j] == k2
                    && self.spec_drops().contains_key(k2) && spec_expired(self.spec_drops()[k2].dropped_at, now),
        {
            let is_expired = match self.drops.get(k) {
                Some(d) => now >= d.dropped_at && (now - d.dropped_at) / 1000 > DROP_TTL_SECS,
                None => false,
            };
            let ghost old_expired = expired@;
            if is_expired {
                expired.push(*k);
            }
            proof {
                assert forall|k2: u128| expired@.contains(k2) <==> exists|j: int| 0 <= j < it.index() + 1 && *it.seq()[j] == k2
                    && self.spec_drops().contains_key(k2) && spec_expired(self.spec_drops()[k2].dropped_at, now) by {
                    if expired@.contains(k2) {
                        if !old_expired.contains(k2) {
                            assert(k2 == *k);
                            assert(*it.seq()[it.index() as int] == k2);
                        }
                    }
                    if exists|j: int| 0 <= j < it.index() + 1 && *it.seq()[j] == k2 && self.spec_drops().contains_key(k2) && spec_expired(self.spec_drops()[k2].dropped_at, now) {
                        let j = choose|j: int| 0 <= j < it.index() + 1 && *it.seq()[j] == k2 && self.spec_drops().contains_key(k2) && spec_expired(self.spec_drops()[k2].dropped_at, now);
                        if j == it.index() {
                            assert(expired@.last() == k2);
                        } else {
                            assert(old_expired.contains(k2));
                            let t = choose|t: int| 0 <= t < old_expired.len() && old_expired[t] == k2;
                            assert(expired@[t] == k2);
                        }
                    }
                }
            }
        }
        let ghost before = self.drops@;
        assert(forall|k2: u128| #[trigger] before.contains_key(k2) && spec_expired(before[k2].dropped_at, now) ==> expired@.contains(k2));
        let mut i: usize = 0;
        while i < expired.len()
            invariant
                i <= expired@.len(),
                forall|k2: u128| expired@.contains(k2) ==> before.contains_key(k2) && spec_expired(before[k2].dropped_at, now),
                forall|k2: u128| #[trigger] self.drops@.contains_key(k2) <==> before.contains_key(k2)
                    && !(exists|j: int| 0 <= j < i && expired@[j] == k2),
                forall|k2: u128| #[trigger] self.drops@.contains_key(k2) ==> self.drops@[k2] == before[k2],
            decreases expired@.len() - i,
        {
            let ghost pre = self.drops@;
            self.drops.remove(&expired[i]);
            proof {
                assert(self.drops@ =~= pre.remove(expired@[i as int]));
            }
            i = i + 1;
        }
        proof {
            assert forall|k2: u128| #[trigger] self.drops@.contains_key(k2) <==>
                before.contains_key(k2) && !spec_expired(before[k2].dropped_at, now) by {
                if before.contains_key(k2) && spec_expired(before[k2].dropped_at, now) {
                    assert(expired@.contains(k2));
                    let t = choose|t: int| 0 <= t < expired@.len() && expired@[t] == k2;
                }
            }
        }
        expired
    }

    /// Puts an item on the ground as `add` does and tells the map's channel.
    pub fn add_with_broadcast(&mut self, item_id: u32, amount: u16, x: u16, y: u16, map_name: &str,
        channel_bus: &ChannelBus, ids: &mut EntityIds) -> (id: u128)
        ensures
            final(self).spec_drops().dom() == old(self).spec_drops().dom().insert(id),
            forall|k: u128| k != id && #[trigger] old(self).spec_drops().contains_key(k) ==>
                final(self).spec_drops()[k] == old(self).spec_drops()[k],
            ({
                let d = final(self).spec_drops()[id];
                d.id == id && d.item_id == item_id && d.amount == amount && d.x == x && d.y == y && d.map_name@ == map_name@
            }),
    {
        let id = self.add(item_id, amount, x, y, map_name);
        let channel_name = map_channel_name(map_name);
        let event = GameEvent::ItemDrop { item_id, x, y, amount };
        let packet = event.to_packet_bytes(ids);
        channel_bus.publish(channel_name.as_str(), &event, packet);
        id
    }

    /// Takes an item off the ground as `pickup` does; when there was one,
    /// tells the map's channel who picked it up.
    pub fn pickup_with_broadcast(&mut self, drop_id: u128, player_id: u128, channel_bus: &ChannelBus, map_name: &str,
        ids: &mut EntityIds) -> (r: Option<DropItem>)
        ensures
            final(self).spec_drops() == old(self).spec_drops().remove(drop_id),
            r == (if old(self).spec_drops().contains_key(drop_id) { Some(old(self).spec_drops()[drop_id]) } else { None }),
    {
        let item = self.pickup(drop_id);
        match &item {
            Some(drop) => {
                let channel_name = map_channel_name(map_name);
                let event = GameEvent::ItemPickup { player_id, item_id: drop.item_id, amount: drop.amount };
                let packet = event.to_packet_bytes(ids);
                channel_bus.publish(channel_name.as_str(), &event, packet);
            },
            None => {},
        }
        item
    }

    /// Removes the expired items as `cleanup_expired` does and tells each
    /// one's map channel that it is gone.
    pub fn cleanup_expired_with_broadcast(&mut self, channel_bus: &ChannelBus, ids: &mut EntityIds, now: u64) -> (expired: Vec<u128>)
        ensures
            forall|k: u128| #[trigger] final(self).spec_drops().contains_key(k) <==>
                old(self).spec_drops().contains_key(k) && !spec_expired(old(self).spec_drops()[k].dropped_at, now),
            forall|k: u128| #[trigger] final(self).spec_drops().contains_key(k) ==> final(self).spec_drops()[k] == old(self).spec_drops()[k],
            forall|k: u128| expired@.contains(k) <==>
                old(self).spec_drops().contains_key(k) && spec_expired(old(self).spec_drops()[k].dropped_at, now),
    {
        let mut gone: Vec<(u32, u16, u16, String)> = Vec::new();
        for k in self.drops.keys() {
            match self.drops.get(k) {
                Some(d) => {
                    if now >= d.dropped_at && (now - d.dropped_at) / 1000 > DROP_TTL_SECS {
                        gone.push((d.item_id, d.x, d.y, d.map_name.clone()));
                    }
                },
                None => {},
            }
        }
        let expired = self.cleanup_expired(now);
        let mut i: usize = 0;
        while i < gone.len()
            decreases gone@.len() - i,
        {
            let channel_name = map_channel_name(gone[i].3.as_str());
            let event = GameEvent::ItemDespawn { item_id: gone[i].0, x: gone[i].1, y: gone[i].2 };
            let packet = event.to_packet_bytes(ids);
            channel_bus.publish(channel_name.as_str(), &event, packet);
            i = i + 1;
        }
        expired
    }
}

} // verus!
