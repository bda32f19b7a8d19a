//! Where monsters spawn, which are alive on each map, and when dead ones
//! come back.

use vstd::prelude::*;
use std::collections::HashMap;
use crate::strmap::StrMap;
use crate::text::owned;

verus! {

broadcast use vstd::std_specs::hash::group_hash_axioms;

/// A place where `count` monsters of kind `mob_id` spawn, every `interval` milliseconds.
#[derive(Debug, Clone, Copy, PartialEq, Eq, Structural)]
pub struct SpawnPoint {
    pub mob_id: u16,
    pub x: u16,
    pub y: u16,
    pub count: u8,
    pub interval: u32,
}

/// How long a dead monster waits before it may respawn, in milliseconds.
pub const MOB_RESPAWN_DELAY_MS: u64 = 5000;

/// The spawn points of each map, the ids of the monsters alive on each map,
/// and when each dead monster died (milliseconds).
pub struct MobSpawnManager {
    spawns: StrMap<Vec<SpawnPoint>>,
    active_mobs: StrMap<Vec<u128>>,
    death_times: HashMap<u128, u64>,
}

/// The spawn points of a map, in the order they were added.
pub open spec fn spec_spawns_of(spawns: Map<Seq<char>, Seq<SpawnPoint>>, map: Seq<char>) -> Seq<SpawnPoint> {
    if spawns.contains_key(map) { spawns[map] } else { Seq::empty() }
}

impl MobSpawnManager {
    /// The spawn points, by map.
    pub closed spec fn spec_spawns(&self) -> Map<Seq<char>, Seq<SpawnPoint>> {
        self.spawns@.map_values(|v: Vec<SpawnPoint>| v@)
    }

    /// The monsters alive, by map.
    pub closed spec fn spec_active(&self) -> Map<Seq<char>, Seq<u128>> {
        self.active_mobs@.map_values(|v: Vec<u128>| v@)
    }

    /// When each dead monster died.
    pub closed spec fn spec_death_times(&self) -> Map<u128, u64> {
        self.death_times@
    }

    pub fn new() -> (m: Self)
        ensures
            m.spec_spawns() == Map::<Seq<char>, Seq<SpawnPoint>>::empty(),
            m.spec_active() == Map::<Seq<char>, Seq<u128>>::empty(),
            m.spec_death_times() == Map::<u128, u64>::empty(),
    {
        let m = MobSpawnManager { spawns: StrMap::new(), active_mobs: StrMap::new(), death_times: HashMap::new() };
        assert(m.spec_spawns() =~= Map::<Seq<char>, Seq<SpawnPoint>>::empty());
        assert(m.spec_active() =~= Map::<Seq<char>, Seq<u128>>::empty());
        m
    }

    /// Adds a spawn point to a map, after the ones it has.
    pub fn add_spawn(&mut self, map_name: &str, spawn: SpawnPoint)
        ensures
            final(self).spec_spawns() == old(self).spec_spawns().insert(map_name@, spec_spawns_of(old(self).spec_spawns(), map_name@).push(spawn)),
            final(self).spec_active() == old(self).spec_active(),
            final(self).spec_death_times() == old(self).spec_death_times(),
    {
        let mut list = match self.spawns.remove(map_name) {
            Some(l) => l,
            None => Vec::new(),
        };
        list.push(spawn);
        self.spawns.insert(owned(map_name), list);
        proof {
            assert(self.spec_spawns() =~= old(self).spec_spawns().insert(map_name@,
                spec_spawns_of(old(self).spec_spawns(), map_name@).push(spawn)));
        }
    }

    /// The spawn points of a map (none for an unknown map).
    pub fn get_spawns(&self, map_name: &str) -> (v: Vec<SpawnPoint>)
        ensures
            v@ == spec_spawns_of(self.spec_spawns(), map_name@),
    {
        match self.spawns.get(map_name) {
            Some(l) => {
                let mut v: Vec<SpawnPoint> = Vec::new();
                let mut i: usize = 0;
                while i < l.len()
                    invariant
                        i <= l@.len(),
                        v@ == l@.subrange(0, i as int),
                    decreases l@.len() - i,
                {
                    v.push(l[i]);
                    i = i + 1;
                }
                assert(l@.subrange(0, l@.len() as int) =~= l@);
                v
            },
            None => Vec::new(),
        }
    }

    /// Registers a live monster on a map.
    pub fn register_mob(&mut self, map_name: &str, mob_id: u128)
        ensures
            final(self).spec_active() == old(self).spec_active().insert(map_name@,
                (if old(self).spec_active().contains_key(map_name@) { old(self).spec_active()[map_name@] } else { Seq::empty() }).push(mob_id)),
            final(self).spec_spawns() == old(self).spec_spawns(),
            final(self).spec_death_times() == old(self).spec_death_times(),
    {
        let mut list = match self.active_mobs.remove(map_name) {
            Some(l) => l,
            None => Vec::new(),
        };
        list.push(mob_id);
        self.active_mobs.insert(owned(map_name), list);
        proof {
            assert(self.spec_active() =~= old(self).spec_active().insert(map_name@,
                (if old(self).spec_active().contains_key(map_name@) { old(self).spec_active()[map_name@] } else { Seq::empty() }).push(mob_id)));
        }
    }

    /// Takes a dead monster off its map and records when it died.
    pub fn unregister_mob(&mut self, map_name: &str, mob_id: u128, now: u64)
        ensures
            old(self).spec_active().contains_key(map_name@) ==> final(self).spec_active() == old(self).spec_active().insert(map_name@,
                old(self).spec_active()[map_name@].filter(|m: u128| m != mob_id)),
            !old(self).spec_active().contains_key(map_name@) ==> final(self).spec_active() == old(self).spec_active(),
            final(self).spec_death_times() == old(self).spec_death_times().insert(mob_id, now),
            final(self).spec_spawns() == old(self).spec_spawns(),
    {
        match self.active_mobs.remove(map_name) {
            Some(l) => {
                let mut kept: Vec<u128> = Vec::new();
                let mut i: usize = 0;
                while i < l.len()
                    invariant
                        i <= l@.len(),
                        kept@ == l@.subrange(0, i as int).filter(|m: u128| m != mob_id),
                    decreases l@.len() - i,
                {
                    let m = l[i];
                    proof {
                        reveal(Seq::filter);
                        assert(l@.subrange(0, i + 1).drop_last() =~= l@.subrange(0, i as int));
                    }
                    if m != mob_id {
                        kept.push(m);
                    }
                    i = i + 1;
                }
                assert(l@.subrange(0, l@.len() as int) =~= l@);
                self.active_mobs.insert(owned(map_name), kept);
                proof {
                    assert(self.spec_active() =~= old(self).spec_active().insert(map_name@,
                        old(self).spec_active()[map_name@].filter(|m: u128| m != mob_id)));
                }
            },
            None => {
                proof {
                    assert(self.spec_active() =~= old(self).spec_active());
                }
            },
        }
        self.death_times.insert(mob_id, now);
    }

    /// The ids of the monsters alive on every map.
    pub fn get_all_active_mobs(&self) -> (v: Vec<u128>)
        ensures
            forall|id: u128| #[trigger] v@.contains(id) <==>
                exists|m: Seq<char>| #[trigger] self.spec_active().contains_key(m) && self.spec_active()[m].contains(id),
    {
        let names = self.active_mobs.key_list();
        let mut v: Vec<u128> = Vec::new();
        let mut i: usize = 0;
        while i < names.len()
            invariant
                i <= names@.len(),
                forall|j: int| 0 <= j < names@.len() ==> #[trigger] self.active_mobs@.contains_key(names@[j]@),
                forall|k: Seq<char>| self.active_mobs@.contains_key(k) ==> exists|j: int| 0 <= j < names@.len() && names@[j]@ == k,
                forall|id: u128| #[trigger] v@.contains(id) ==>
                    exists|m: Seq<char>| #[trigger] self.spec_active().contains_key(m) && self.spec_active()[m].contains(id),
                forall|j: int, id: u128| 0 <= j < i && #[trigger] self.spec_active()[names@[j]@].contains(id) ==> #[trigger] v@.contains(id),
            decreases names@.len() - i,
        {
            let ghost name = names@[i as int]@;
            match self.active_mobs.get(names[i].as_str()) {
                Some(l) => {
                    let ghost before = v@;
                    let mut t: usize = 0;
                    while t < l.len()
                        invariant
                            t <= l@.len(),
                            self.active_mobs@.contains_key(name),
                            self.spec_active()[name] == l@,
                            v@ == before + l@.subrange(0, t as int),
                            forall|id: u128| #[trigger] before.contains(id) ==>
                                exists|m: Seq<char>| #[trigger] self.spec_active().contains_key(m) && self.spec_active()[m].contains(id),
                        decreases l@.len() - t,
                    {
                        v.push(l[t]);
                        t = t + 1;
                    }
                    proof {
                        assert(l@.subrange(0, l@.len() as int) =~= l@);
                        assert forall|id: u128| #[trigger] v@.contains(id) implies
                            exists|m: Seq<char>| #[trigger] self.spec_active().contains_key(m) && self.spec_active()[m].contains(id) by {
                            let k = choose|k: int| 0 <= k < v@.len() && v@[k] == id;
                            if k < before.len() {
                                assert(before[k] == id);
                                assert(before.contains(id));
                            } else {
                                assert(v@[k] == l@[k - before.len()]);
                                assert(l@.contains(id));
                                assert(self.spec_active().contains_key(name));
                                assert(self.spec_active()[name].contains(id));
                            }
                        }
                        assert forall|j: int, id: u128| 0 <= j < i + 1 && #[trigger] self.spec_active()[names@[j]@].contains(id) implies #[trigger] v@.contains(id) by {
                            if j < i {
                                assert(before.contains(id));
                                let k = choose|k: int| 0 <= k < before.len() && before[k] == id;
                                assert(v@[k] == id);
                            } else {
                                let k = choose|k: int| 0 <= k < l@.len() && l@[k] == id;
                                assert(v@[before.len() + k] == id);
                            }
                        }
                    }
                },
                None => {
                    assert(false);
                },
            }
            i = i + 1;
        }
        proof {
            assert forall|id: u128| (exists|m: Seq<char>| #[trigger] self.spec_active().contains_key(m) && self.spec_active()[m].contains(id))
                implies #[trigger] v@.contains(id) by {
                let m = choose|m: Seq<char>| #[trigger] self.spec_active().contains_key(m) && self.spec_active()[m].contains(id);
                let j = choose|j: int| 0 <= j < names@.len() && names@[j]@ == m;
                assert(self.spec_active()[names@[j]@].contains(id));
            }
        }
        v
    }

    /// The ids of the monsters alive on a map.
    pub fn get_active_mobs(&self, map_name: &str) -> (v: Vec<u128>)
        ensures
            v@ == (if self.spec_active().contains_key(map_name@) { self.spec_active()[map_name@] } else { Seq::empty() }),
    {
        match self.active_mobs.get(map_name) {
            Some(l) => {
                let mut v: Vec<u128> = Vec::new();
                let mut i: usize = 0;
                while i < l.len()
                    invariant
                        i <= l@.len(),
                        v@ == l@.subrange(0, i as int),
                    decreases l@.len() - i,
                {
                    v.push(l[i]);
                    i = i + 1;
                }
                assert(l@.subrange(0, l@.len() as int) =~= l@);
                v
            },
            None => Vec::new(),
        }
    }

    /// Forgets the deaths at least `MOB_RESPAWN_DELAY_MS` old at `now` and
    /// returns those monsters' ids.
    pub fn check_respawn(&mut self, now: u64) -> (ids: Vec<u128>)
        ensures
            forall|k: u128| #[trigger] final(self).spec_death_times().contains_key(k) <==>
                old(self).spec_death_times().contains_key(k) && !spec_respawn_due(old(self).spec_death_times()[k], now),
            forall|k: u128| #[trigger] final(self).spec_death_times().contains_key(k) ==>
                final(self).spec_death_times()[k] == old(self).spec_death_times()[k],
            forall|k: u128| ids@.contains(k) <==>
                old(self).spec_death_times().contains_key(k) && spec_respawn_due(old(self).spec_death_times()[k], now),
            final(self).spec_spawns() == old(self).spec_spawns(),
            final(self).spec_active() == old(self).spec_active(),
    {
        let mut due: Vec<u128> = Vec::new();
        for k in it: self.death_times.keys()
            invariant
                forall|k2: u128| #[trigger] self.death_times@.contains_key(k2) ==> exists|j: int| 0 <= j < it.seq().len() && *it.seq()[j] == k2,
                forall|k2: u128| due@.contains(k2) <==> exists|j: int| 0 <= j < it.index() && *it.seq()[j] == k2
                    && self.death_times@.contains_key(k2) && spec_respawn_due(self.death_times@[k2], now),
        {
            let is_due = match self.death_times.get(k) {
                Some(t) => (if now >= *t { now - *t } else { 0 }) >= MOB_RESPAWN_DELAY_MS,
                None => false,
            };
            let ghost old_due = due@;
            if is_due {
                due.push(*k);
            }
            proof {
                assert forall|k2: u128| due@.contains(k2) <==> exists|j: int| 0 <= j < it.index() + 1 && *it.seq()[j] == k2
                    && self.death_times@.contains_key(k2) && spec_respawn_due(self.death_times@[k2], now) by {
                    if due@.contains(k2) && !old_due.contains(k2) {
                        assert(k2 == *k);
                        assert(*it.seq()[it.index() as int] == k2);
                    }
                    if exists|j: int| 0 <= j < it.index() + 1 && *it.seq()[j] == k2 && self.death_times@.contains_key(k2)
                        && spec_respawn_due(self.death_times@[k2], now) {
                        let j = choose|j: int| 0 <= j < it.index() + 1 && *it.seq()[j] == k2 && self.death_times@.contains_key(k2)
                            && spec_respawn_due(self.death_times@[k2], now);
                        if j == it.index() {
                            assert(due@.last() == k2);
                        } else {
                            assert(old_due.contains(k2));
                            let t = choose|t: int| 0 <= t < old_due.len() && old_due[t] == k2;
                            assert(due@[t] == k2);
                        }
                    }
                }
            }
        }
        let ghost before = self.death_times@;
        assert(forall|k2: u128| #[trigger] before.contains_key(k2) && spec_respawn_due(before[k2], now) ==> due@.contains(k2));
        let mut i: usize = 0;
        while i < due.len()
            invariant
                i <= due@.len(),
                self.spawns@ == old(self).spawns@,
                self.active_mobs@ == old(self).active_mobs@,
                forall|k2: u128| due@.contains(k2) ==> before.contains_key(k2) && spec_respawn_due(before[k2], now),
                forall|k2: u128| #[trigger] self.death_times@.contains_key(k2) <==> before.contains_key(k2)
                    && !(exists|j: int| 0 <= j < i && due@[j] == k2),
                forall|k2: u128| #[trigger] self.death_times@.contains_key(k2) ==> self.death_times@[k2] == before[k2],
            decreases due@.len() - i,
        {
            let ghost pre = self.death_times@;
            self.death_times.remove(&due[i]);
            proof {
                assert(self.death_times@ =~= pre.remove(due@[i as int]));
            }
            i = i + 1;
        }
        proof {
            assert forall|k2: u128| #[trigger] self.death_times@.contains_key(k2) <==>
                before.contains_key(k2) && !spec_respawn_due(before[k2], now) by {
                if before.contains_key(k2) && spec_respawn_due(before[k2], now) {
                    assert(due@.contains(k2));
                    let t = choose|t: int| 0 <= t < due@.len() && due@[t] == k2;
                }
            }
        }
        due
    }

    /// Adds the built-in spawn points of Prontera and the novice field.
    pub fn init_default_spawns(&mut self)
        ensures
            final(self).spec_spawns() == old(self).spec_spawns()
                .insert("prontera.gat"@, spec_spawns_of(old(self).spec_spawns(), "prontera.gat"@)
                    .push(SpawnPoint { mob_id: 1001, x: 100, y: 100, count: 10, interval: 10000 })
                    .push(SpawnPoint { mob_id: 1002, x: 150, y: 120, count: 5, interval: 15000 }))
                .insert("new_1-1.gat"@, spec_spawns_of(old(self).spec_spawns(), "new_1-1.gat"@)
                    .push(SpawnPoint { mob_id: 1001, x: 50, y: 50, count: 15, interval: 5000 })
                    .push(SpawnPoint { mob_id: 1312, x: 100, y: 100, count: 10, interval: 10000 })),
            final(self).spec_active() == old(self).spec_active(),
    {
        proof {
            reveal_strlit("prontera.gat");
            reveal_strlit("new_1-1.gat");
            assert("prontera.gat"@ != "new_1-1.gat"@) by {
                assert("prontera.gat"@[0] != "new_1-1.gat"@[0]);
            }
        }
        self.add_spawn("prontera.gat", SpawnPoint { mob_id: 1001, x: 100, y: 100, count: 10, interval: 10000 });
        self.add_spawn("prontera.gat", SpawnPoint { mob_id: 1002, x: 150, y: 120, count: 5, interval: 15000 });
        self.add_spawn("new_1-1.gat", SpawnPoint { mob_id: 1001, x: 50, y: 50, count: 15, interval: 5000 });
        self.add_spawn("new_1-1.gat", SpawnPoint { mob_id: 1312, x: 100, y: 100, count: 10, interval: 10000 });
        proof {
            assert(self.spec_spawns() =~= old(self).spec_spawns()
                .insert("prontera.gat"@, spec_spawns_of(old(self).spec_spawns(), "prontera.gat"@)
                    .push(SpawnPoint { mob_id: 1001, x: 100, y: 100, count: 10, interval: 10000 })
                    .push(SpawnPoint { mob_id: 1002, x: 150, y: 120, count: 5, interval: 15000 }))
                .insert("new_1-1.gat"@, spec_spawns_of(old(self).spec_spawns(), "new_1-1.gat"@)
                    .push(SpawnPoint { mob_id: 1001, x: 50, y: 50, count: 15, interval: 5000 })
                    .push(SpawnPoint { mob_id: 1312, x: 100, y: 100, count: 10, interval: 10000 })));
        }
    }
}

/// Whether a monster that died at `t` may respawn at `now`.
pub open spec fn spec_respawn_due(t: u64, now: u64) -> bool {
    (if now >= t { now - t } else { 0 }) >= MOB_RESPAWN_DELAY_MS
}

impl Default for MobSpawnManager {
    fn default() -> (m: Self)
        ensures
            m.spec_spawns() == Map::<Seq<char>, Seq<SpawnPoint>>::empty(),
    {
        MobSpawnManager::new()
    }
}

} // verus!
