//! The players online, indexed by id and by the map each joined, and the
//! maps they walk on.

use vstd::prelude::*;
use std::collections::HashMap;
use crate::map::data::{MapData, MapDatabase, has_layout, new_1_1_layout, prontera_layout, prt_sewb1_layout};
use crate::map::player::{Player, PlayerState, CombatStats, Position, spec_same_player};
use crate::strmap::StrMap;
use crate::text::{owned, str_eq};

verus! {

broadcast use vstd::std_specs::hash::group_hash_axioms;

/// The ids of `ids` that `players` holds, in order.
pub open spec fn spec_present(ids: Seq<u128>, players: Map<u128, Player>) -> Seq<u128>
    decreases ids.len(),
{
    if ids.len() == 0 {
        Seq::empty()
    } else {
        let rest = spec_present(ids.drop_last(), players);
        if players.contains_key(ids.last()) { rest.push(ids.last()) } else { rest }
    }
}

/// Player `p` stands within `radius` cells of `(x, y)` on both axes.
pub open spec fn spec_near(p: Player, x: u16, y: u16, radius: u16) -> bool {
    &&& (if p.pos.x >= x { p.pos.x - x } else { x - p.pos.x }) <= radius
    &&& (if p.pos.y >= y { p.pos.y - y } else { y - p.pos.y }) <= radius
}

/// The ids of `ids` that `players` holds and that stand near `(x, y)`, in order.
pub open spec fn spec_present_near(ids: Seq<u128>, players: Map<u128, Player>, x: u16, y: u16, radius: u16) -> Seq<u128>
    decreases ids.len(),
{
    if ids.len() == 0 {
        Seq::empty()
    } else {
        let rest = spec_present_near(ids.drop_last(), players, x, y, radius);
        if players.contains_key(ids.last()) && spec_near(players[ids.last()], x, y, radius) {
            rest.push(ids.last())
        } else {
            rest
        }
    }
}

/// `ids` without `id`, in order.
pub open spec fn spec_without(ids: Seq<u128>, id: u128) -> Seq<u128>
    decreases ids.len(),
{
    if ids.len() == 0 {
        Seq::empty()
    } else {
        let rest = spec_without(ids.drop_last(), id);
        if ids.last() != id { rest.push(ids.last()) } else { rest }
    }
}

/// The index after moving `id` from the list of `old_map` (if there is
/// one) to the end of the list of `new_map` (created when missing; left as
/// it is when it already holds `id`).
pub open spec fn spec_moved(index: Map<Seq<char>, Seq<u128>>, id: u128, old_map: Seq<char>, new_map: Seq<char>) -> Map<Seq<char>, Seq<u128>> {
    let removed = if index.contains_key(old_map) { index.insert(old_map, spec_without(index[old_map], id)) } else { index };
    let list = if removed.contains_key(new_map) { removed[new_map] } else { Seq::empty() };
    removed.insert(new_map, if list.contains(id) { list } else { list.push(id) })
}

/// A player who has come back at `(x, y)`: full HP and SP, alive and standing.
pub open spec fn spec_respawned(p: Player, x: u16, y: u16) -> Player {
    Player {
        combat: CombatStats { hp: p.combat.max_hp, sp: p.combat.max_sp, state: PlayerState::Alive, is_sitting: false, ..p.combat },
        pos: Position { x, y },
        ..p
    }
}

fn without(ids: &Vec<u128>, id: u128) -> (r: Vec<u128>)
    ensures
        r@ == spec_without(ids@, id),
{
    let mut r: Vec<u128> = Vec::new();
    let mut i: usize = 0;
    while i < ids.len()
        invariant
            i <= ids@.len(),
            r@ == spec_without(ids@.subrange(0, i as int), id),
        decreases ids@.len() - i,
    {
        assert(ids@.subrange(0, i + 1).drop_last() =~= ids@.subrange(0, i as int));
        if ids[i] != id {
            r.push(ids[i]);
        }
        i = i + 1;
    }
    assert(ids@.subrange(0, ids@.len() as int) =~= ids@);
    r
}

fn contains_id(ids: &Vec<u128>, id: u128) -> (b: bool)
    ensures
        b == ids@.contains(id),
{
    let mut i: usize = 0;
    while i < ids.len()
        invariant
            i <= ids@.len(),
            forall|j: int| 0 <= j < i ==> ids@[j] != id,
        decreases ids@.len() - i,
    {
        if ids[i] == id {
            assert(ids@[i as int] == id);
            return true;
        }
        i = i + 1;
    }
    false
}

/// Removing a player who was just added leaves the other players as they
/// were, and the removed player is no longer online.
pub proof fn lemma_add_then_remove(players: Map<u128, Player>, p: Player)
    ensures
        !players.insert(p.id, p).remove(p.id).contains_key(p.id),
        players.insert(p.id, p).remove(p.id) == players.remove(p.id),
        players.insert(p.id, p).contains_key(p.id) && players.insert(p.id, p)[p.id] == p,
{
    assert(players.insert(p.id, p).remove(p.id) =~= players.remove(p.id));
}

/// The players online and the maps they are on.
pub struct MapState {
    players: HashMap<u128, Player>,
    players_by_map: StrMap<Vec<u128>>,
    map_database: MapDatabase,
}

impl MapState {
    /// Each player is kept under their own id.
    pub closed spec fn well_formed(&self) -> bool {
        forall|k: u128| #[trigger] self.players@.contains_key(k) ==> self.players@[k].id == k
    }

    /// The players online, by id.
    pub closed spec fn spec_players(&self) -> Map<u128, Player> {
        self.players@
    }

    /// For each map name, the ids listed as on it, in the order they joined.
    pub closed spec fn spec_index(&self) -> Map<Seq<char>, Seq<u128>> {
        Map::new(|k: Seq<char>| self.players_by_map@.contains_key(k), |k: Seq<char>| self.players_by_map@[k]@)
    }

    /// The maps.
    pub closed spec fn spec_maps(&self) -> Map<Seq<char>, MapData> {
        self.map_database@
    }

    /// The ids listed for `map` (none when it has no list).
    pub open spec fn spec_ids_on(&self, map: Seq<char>) -> Seq<u128> {
        if self.spec_index().contains_key(map) { self.spec_index()[map] } else { Seq::empty() }
    }

    /// No players, on the built-in maps.
    pub fn new() -> (s: Self)
        ensures
            s.spec_players() == Map::<u128, Player>::empty(),
            s.spec_index() == Map::<Seq<char>, Seq<u128>>::empty(),
            s.well_formed(),
            s.spec_maps().dom() == set!["new_1-1.gat"@, "prontera.gat"@, "prt_sewb1.gat"@],
            has_layout(s.spec_maps()["new_1-1.gat"@], "new_1-1.gat"@, 200, |x: int, y: int| new_1_1_layout(x, y)),
            has_layout(s.spec_maps()["prontera.gat"@], "prontera.gat"@, 300, |x: int, y: int| prontera_layout(x, y)),
            has_layout(s.spec_maps()["prt_sewb1.gat"@], "prt_sewb1.gat"@, 100, |x: int, y: int| prt_sewb1_layout(x, y)),
    {
        MapState::with_map_database(MapDatabase::new())
    }

    /// No players, on the maps of `map_database`.
    pub fn with_map_database(map_database: MapDatabase) -> (s: Self)
        ensures
            s.spec_players() == Map::<u128, Player>::empty(),
            s.spec_index() == Map::<Seq<char>, Seq<u128>>::empty(),
            s.spec_maps() == map_database@,
            s.well_formed(),
    {
        let s = MapState { players: HashMap::new(), players_by_map: StrMap::new(), map_database };
        assert(s.spec_index() =~= Map::<Seq<char>, Seq<u128>>::empty());
        s
    }

    /// Adds a player (replacing one with the same id) and lists them on
    /// their map, after those already there.
    pub fn add_player(&mut self, player: Player)
        requires
            old(self).well_formed(),
        ensures
            final(self).well_formed(),
            final(self).spec_players() == old(self).spec_players().insert(player.id, player),
            final(self).spec_index() == old(self).spec_index().insert(player.map_name@,
                old(self).spec_ids_on(player.map_name@).push(player.id)),
            final(self).spec_maps() == old(self).spec_maps(),
    {
        let player_id = player.id;
        let map_name = player.map_name.clone();
        let ghost key = player.map_name@;
        let ghost p = player;
        self.players.insert(player_id, player);
        let mut list = match self.players_by_map.remove(map_name.as_str()) {
            Some(l) => l,
            None => Vec::new(),
        };
        list.push(player_id);
        self.players_by_map.insert(map_name, list);
        proof {
            assert(self.spec_index() =~= old(self).spec_index().insert(key, old(self).spec_ids_on(key).push(player_id)));
        }
    }

    /// Moves `id` between the lists of two maps, as `spec_moved` describes.
    fn move_in_index(&mut self, id: u128, old_map: &str, new_map: &str)
        ensures
            final(self).spec_index() == spec_moved(old(self).spec_index(), id, old_map@, new_map@),
            final(self).spec_players() == old(self).spec_players(),
            final(self).spec_maps() == old(self).spec_maps(),
    {
        let ghost i0 = self.spec_index();
        match self.players_by_map.remove(old_map) {
            Some(list) => {
                let kept = without(&list, id);
                self.players_by_map.insert(owned(old_map), kept);
            },
            None => {},
        }
        let ghost removed = if i0.contains_key(old_map@) { i0.insert(old_map@, spec_without(i0[old_map@], id)) } else { i0 };
        assert(self.spec_index() =~= removed);
        let mut list = match self.players_by_map.remove(new_map) {
            Some(l) => l,
            None => Vec::new(),
        };
        let ghost before = list@;
        if !contains_id(&list, id) {
            list.push(id);
        }
        self.players_by_map.insert(owned(new_map), list);
        assert(self.spec_index() =~= spec_moved(i0, id, old_map@, new_map@));
    }

    /// Removes a player, and their id from the list of the map they are on.
    pub fn remove_player(&mut self, player_id: u128)
        requires
            old(self).well_formed(),
        ensures
            final(self).well_formed(),
            final(self).spec_players() == old(self).spec_players().remove(player_id),
            final(self).spec_maps() == old(self).spec_maps(),
            ({
                let o = old(self);
                if o.spec_players().contains_key(player_id) && o.spec_index().contains_key(o.spec_players()[player_id].map_name@) {
                    let m = o.spec_players()[player_id].map_name@;
                    final(self).spec_index() == o.spec_index().insert(m, spec_without(o.spec_index()[m], player_id))
                } else {
                    final(self).spec_index() == o.spec_index()
                }
            }),
    {
        let ghost i0 = self.spec_index();
        match self.players.remove(&player_id) {
            Some(p) => {
                match self.players_by_map.remove(p.map_name.as_str()) {
                    Some(list) => {
                        let kept = without(&list, player_id);
                        self.players_by_map.insert(owned(p.map_name.as_str()), kept);
                        assert(self.spec_index() =~= i0.insert(p.map_name@, spec_without(i0[p.map_name@], player_id)));
                    },
                    None => {
                        assert(self.spec_index() =~= i0);
                    },
                }
            },
            None => {},
        }
    }

    /// A copy of a player.
    pub fn get_player(&self, player_id: u128) -> (r: Option<Player>)
        ensures
            r is Some <==> self.spec_players().contains_key(player_id),
            r matches Some(p) ==> spec_same_player(self.spec_players()[player_id], p),
    {
        match self.players.get(&player_id) {
            Some(p) => Some(p.clone()),
            None => None,
        }
    }

    /// Copies of the players listed on `map_name` who are online, in the
    /// order they joined it.
    pub fn get_players_on_map(&self, map_name: &str) -> (v: Vec<Player>)
        ensures
            v@.len() == spec_present(self.spec_ids_on(map_name@), self.spec_players()).len(),
            forall|i: int| 0 <= i < v@.len() ==> spec_same_player(
                self.spec_players()[spec_present(self.spec_ids_on(map_name@), self.spec_players())[i]], #[trigger] v@[i]),
    {
        let mut v: Vec<Player> = Vec::new();
        match self.players_by_map.get(map_name) {
            Some(ids) => {
                let ghost players = self.spec_players();
                let mut i: usize = 0;
                while i < ids.len()
                    invariant
                        i <= ids@.len(),
                        ids@ == self.spec_ids_on(map_name@),
                        players == self.spec_players(),
                        v@.len() == spec_present(ids@.subrange(0, i as int), players).len(),
                        forall|j: int| 0 <= j < v@.len() ==> spec_same_player(
                            players[spec_present(ids@.subrange(0, i as int), players)[j]], #[trigger] v@[j]),
                    decreases ids@.len() - i,
                {
                    assert(ids@.subrange(0, i + 1).drop_last() =~= ids@.subrange(0, i as int));
                    match self.players.get(&ids[i]) {
                        Some(p) => {
                            v.push(p.clone());
                        },
                        None => {},
                    }
                    i = i + 1;
                }
                assert(ids@.subrange(0, ids@.len() as int) =~= ids@);
            },
            None => {},
        }
        v
    }

    /// How many players are online.
    pub fn player_count(&self) -> (n: usize)
        ensures
            n == self.spec_players().len(),
    {
        self.players.len()
    }

    /// Copies of the players listed on `map_name` who are online and stand
    /// within `radius` cells of `(x, y)` on both axes, in the order they
    /// joined the map.
    pub fn get_players_near(&self, map_name: &str, x: u16, y: u16, radius: u16) -> (v: Vec<Player>)
        ensures
            v@.len() == spec_present_near(self.spec_ids_on(map_name@), self.spec_players(), x, y, radius).len(),
            forall|i: int| 0 <= i < v@.len() ==> spec_same_player(
                self.spec_players()[spec_present_near(self.spec_ids_on(map_name@), self.spec_players(), x, y, radius)[i]],
                #[trigger] v@[i]),
    {
        let mut v: Vec<Player> = Vec::new();
        match self.players_by_map.get(map_name) {
            Some(ids) => {
                let ghost players = self.spec_players();
                let mut i: usize = 0;
                while i < ids.len()
                    invariant
                        i <= ids@.len(),
                        ids@ == self.spec_ids_on(map_name@),
                        players == self.spec_players(),
                        v@.len() == spec_present_near(ids@.subrange(0, i as int), players, x, y, radius).len(),
                        forall|j: int| 0 <= j < v@.len() ==> spec_same_player(
                            players[spec_present_near(ids@.subrange(0, i as int), players, x, y, radius)[j]], #[trigger] v@[j]),
                    decreases ids@.len() - i,
                {
                    assert(ids@.subrange(0, i + 1).drop_last() =~= ids@.subrange(0, i as int));
                    match self.players.get(&ids[i]) {
                        Some(p) => {
                            let dx: u16 = if p.pos.x >= x { p.pos.x - x } else { x - p.pos.x };
                            let dy: u16 = if p.pos.y >= y { p.pos.y - y } else { y - p.pos.y };
                            if dx <= radius && dy <= radius {
                                v.push(p.clone());
                            }
                        },
                        None => {},
                    }
                    i = i + 1;
                }
                assert(ids@.subrange(0, ids@.len() as int) =~= ids@);
            },
            None => {},
        }
        v
    }

    /// A copy of some online player named `name`.
    pub fn find_player_by_name(&self, name: &str) -> (r: Option<Player>)
        ensures
            r matches Some(p) ==> exists|k: u128| #[trigger] self.spec_players().contains_key(k)
                && self.spec_players()[k].name@ == name@ && spec_same_player(self.spec_players()[k], p),
            r is None ==> forall|k: u128| #[trigger] self.spec_players().contains_key(k) ==> self.spec_players()[k].name@ != name@,
    {
        for k in it: self.players.keys()
            invariant
                forall|k2: u128| #[trigger] self.players@.contains_key(k2) ==> exists|j: int| 0 <= j < it.seq().len() && *it.seq()[j] == k2,
                forall|j: int| 0 <= j < it.index() && #[trigger] self.players@.contains_key(*it.seq()[j]) ==>
                    self.players@[*it.seq()[j]].name@ != name@,
        {
            match self.players.get(k) {
                Some(p) => {
                    if str_eq(p.name.as_str(), name) {
                        return Some(p.clone());
                    }
                },
                None => {},
            }
        }
        None
    }

    /// A copy of some online player of account `account_id`.
    pub fn find_player_by_account_id(&self, account_id: u32) -> (r: Option<Player>)
        ensures
            r matches Some(p) ==> exists|k: u128| #[trigger] self.spec_players().contains_key(k)
                && self.spec_players()[k].account_id == account_id && spec_same_player(self.spec_players()[k], p),
            r is None ==> forall|k: u128| #[trigger] self.spec_players().contains_key(k) ==> self.spec_players()[k].account_id != account_id,
    {
        for k in it: self.players.keys()
            invariant
                forall|k2: u128| #[trigger] self.players@.contains_key(k2) ==> exists|j: int| 0 <= j < it.seq().len() && *it.seq()[j] == k2,
                forall|j: int| 0 <= j < it.index() && #[trigger] self.players@.contains_key(*it.seq()[j]) ==>
                    self.players@[*it.seq()[j]].account_id != account_id,
        {
            match self.players.get(k) {
                Some(p) => {
                    if p.account_id == account_id {
                        return Some(p.clone());
                    }
                },
                None => {},
            }
        }
        None
    }

    /// Brings a player back at `(x, y)` on `new_map` (full HP and SP, alive,
    /// standing); when the map changes, the player is listed on the new map
    /// instead. Returns whether the player is online.
    pub fn respawn_player(&mut self, player_id: u128, x: u16, y: u16, new_map: &str) -> (r: bool)
        requires
            old(self).well_formed(),
        ensures
            final(self).well_formed(),
            r == old(self).spec_players().contains_key(player_id),
            final(self).spec_maps() == old(self).spec_maps(),
            !r ==> final(self).spec_players() == old(self).spec_players() && final(self).spec_index() == old(self).spec_index(),
            r ==> ({
                let p = old(self).spec_players()[player_id];
                let moved = p.map_name@ != new_map@;
                &&& final(self).spec_players().dom() == old(self).spec_players().dom()
                &&& forall|k: u128| k != player_id && #[trigger] old(self).spec_players().contains_key(k) ==>
                    final(self).spec_players()[k] == old(self).spec_players()[k]
                &&& final(self).spec_players()[player_id] == (Player { map_name: final(self).spec_players()[player_id].map_name, ..spec_respawned(p, x, y) })
                &&& final(self).spec_players()[player_id].map_name@ == new_map@
                &&& final(self).spec_index() == (if moved { spec_moved(old(self).spec_index(), player_id, p.map_name@, new_map@) } else { old(self).spec_index() })
            }),
    {
        let mut p = match self.players.remove(&player_id) {
            Some(p) => p,
            None => {
                proof {
                    assert(self.players@ =~= old(self).players@);
                }
                return false;
            },
        };
        let old_map = p.map_name.clone();
        p.respawn(x, y);
        let moved = !str_eq(old_map.as_str(), new_map);
        if moved {
            p.map_name = owned(new_map);
        }
        self.players.insert(player_id, p);
        proof {
            assert(self.players@.dom() =~= old(self).players@.dom());
        }
        if moved {
            self.move_in_index(player_id, old_map.as_str(), new_map);
        }
        true
    }

    /// Lists a player on `new_map` instead of `old_map`; the player's own
    /// record is left as it is.
    pub fn update_player_map(&mut self, player_id: u128, old_map: &str, new_map: &str)
        requires
            old(self).well_formed(),
        ensures
            final(self).well_formed(),
            final(self).spec_index() == spec_moved(old(self).spec_index(), player_id, old_map@, new_map@),
            final(self).spec_players() == old(self).spec_players(),
            final(self).spec_maps() == old(self).spec_maps(),
    {
        self.move_in_index(player_id, old_map, new_map);
    }

    /// Gives an online player base experience; returns whether they are online.
    pub fn add_player_base_exp(&mut self, player_id: u128, exp: u64) -> (r: bool)
        requires
            old(self).well_formed(),
            old(self).spec_players().contains_key(player_id) ==> old(self).spec_players()[player_id].level.base_exp + exp <= u64::MAX,
        ensures
            final(self).well_formed(),
            r == old(self).spec_players().contains_key(player_id),
            final(self).spec_index() == old(self).spec_index(),
            final(self).spec_maps() == old(self).spec_maps(),
            final(self).spec_players() == (if r {
                let p = old(self).spec_players()[player_id];
                old(self).spec_players().insert(player_id, Player { level: crate::map::player::LevelStats {
                    base_exp: (p.level.base_exp + exp) as u64, ..p.level }, ..p })
            } else { old(self).spec_players() }),
    {
        match self.players.remove(&player_id) {
            Some(p) => {
                let mut p = p;
                p.add_base_exp(exp);
                self.players.insert(player_id, p);
                proof {
                    assert(self.players@ =~= old(self).players@.insert(player_id, self.players@[player_id]));
                }
                true
            },
            None => {
                proof {
                    assert(self.players@ =~= old(self).players@);
                }
                false
            },
        }
    }

    /// Gives an online player job experience; returns whether they are online.
    pub fn add_player_job_exp(&mut self, player_id: u128, exp: u64) -> (r: bool)
        requires
            old(self).well_formed(),
            old(self).spec_players().contains_key(player_id) ==> old(self).spec_players()[player_id].level.job_exp + exp <= u64::MAX,
        ensures
            final(self).well_formed(),
            r == old(self).spec_players().contains_key(player_id),
            final(self).spec_index() == old(self).spec_index(),
            final(self).spec_maps() == old(self).spec_maps(),
            final(self).spec_players() == (if r {
                let p = old(self).spec_players()[player_id];
                old(self).spec_players().insert(player_id, Player { level: crate::map::player::LevelStats {
                    job_exp: (p.level.job_exp + exp) as u64, ..p.level }, ..p })
            } else { old(self).spec_players() }),
    {
        match self.players.remove(&player_id) {
            Some(p) => {
                let mut p = p;
                p.add_job_exp(exp);
                self.players.insert(player_id, p);
                proof {
                    assert(self.players@ =~= old(self).players@.insert(player_id, self.players@[player_id]));
                }
                true
            },
            None => {
                proof {
                    assert(self.players@ =~= old(self).players@);
                }
                false
            },
        }
    }

    /// Gives an online player zeny, as `Player::add_zeny` does; returns
    /// whether they are online.
    pub fn add_player_zeny(&mut self, player_id: u128, zeny: u64) -> (r: bool)
        requires
            old(self).well_formed(),
        ensures
            final(self).well_formed(),
            r == old(self).spec_players().contains_key(player_id),
            final(self).spec_index() == old(self).spec_index(),
            final(self).spec_maps() == old(self).spec_maps(),
            !r ==> final(self).spec_players() == old(self).spec_players(),
            r ==> ({
                let p = old(self).spec_players()[player_id];
                let q = final(self).spec_players()[player_id];
                let amount: int = if zeny < u32::MAX { zeny as int } else { u32::MAX as int };
                let room: int = if crate::map::player::MAX_ZENY >= p.economy.zeny { crate::map::player::MAX_ZENY - p.economy.zeny } else { 0 };
                &&& final(self).spec_players() == old(self).spec_players().insert(player_id, q)
                &&& q == (Player { economy: crate::map::player::Economy {
                    zeny: (p.economy.zeny + (if amount < room { amount } else { room })) as u32, ..p.economy }, ..p })
            }),
    {
        match self.players.remove(&player_id) {
            Some(p) => {
                let mut p = p;
                p.add_zeny(zeny);
                self.players.insert(player_id, p);
                proof {
                    assert(self.players@ =~= old(self).players@.insert(player_id, self.players@[player_id]));
                }
                true
            },
            None => {
                proof {
                    assert(self.players@ =~= old(self).players@);
                }
                false
            },
        }
    }

    /// Whether `(x, y)` is walkable on map `map_name`; on an unknown map nothing is.
    pub fn is_walkable(&self, map_name: &str, x: u16, y: u16) -> (b: bool)
        ensures
            b == (self.spec_maps().contains_key(map_name@) && self.spec_maps()[map_name@].spec_walkable(x as int, y as int)),
    {
        match self.map_database.get(map_name) {
            Some(m) => m.is_walkable(x, y),
            None => false,
        }
    }

    /// The maps.
    pub fn map_database(&self) -> (d: &MapDatabase)
        ensures
            d@ == self.spec_maps(),
    {
        &self.map_database
    }

    /// The names of the maps that have a list of players (possibly empty).
    pub fn get_all_map_names(&self) -> (r: Vec<String>)
        ensures
            r@.len() == self.spec_index().len(),
            forall|i: int| 0 <= i < r@.len() ==> #[trigger] self.spec_index().contains_key(r@[i]@),
            forall|k: Seq<char>| self.spec_index().contains_key(k) ==> exists|i: int| 0 <= i < r@.len() && r@[i]@ == k,
    {
        let r = self.players_by_map.key_list();
        proof {
            assert(self.spec_index().dom() =~= self.players_by_map@.dom());
        }
        r
    }

    /// The ids of the players online, each once.
    pub fn get_all_player_ids(&self) -> (r: Vec<u128>)
        ensures
            r@.len() == self.spec_players().len(),
            forall|k: u128| #[trigger] r@.contains(k) <==> self.spec_players().contains_key(k),
    {
        let mut r: Vec<u128> = Vec::new();
        for k in it: self.players.keys()
            invariant
                it.seq().len() == self.players@.dom().len(),
                forall|j: int| 0 <= j < it.seq().len() ==> self.players@.contains_key(#[trigger] it.seq().unref()[j]),
                r@.len() == it.index(),
                forall|j: int| 0 <= j < r@.len() ==> self.players@.contains_key(#[trigger] r@[j]),
                forall|k2: u128| #[trigger] self.players@.contains_key(k2) ==>
                    r@.contains(k2) || exists|j: int| it.index() <= j < it.seq().len() && *it.seq()[j] == k2,
        {
            let ghost before = r@;
            assert(it.seq().unref()[it.index() as int] == *k);
            r.push(*k);
            proof {
                assert forall|k2: u128| #[trigger] self.players@.contains_key(k2) implies
                    r@.contains(k2) || exists|j: int| it.index() + 1 <= j < it.seq().len() && *it.seq()[j] == k2 by {
                    if before.contains(k2) {
                        let j = choose|j: int| 0 <= j < before.len() && before[j] == k2;
                        assert(r@[j] == k2);
                    } else if *k == k2 {
                        assert(r@[r@.len() - 1] == k2);
                    }
                }
            }
        }
        proof {
            assert forall|k: u128| #[trigger] r@.contains(k) <==> self.players@.contains_key(k) by {
                if r@.contains(k) {
                    let j = choose|j: int| 0 <= j < r@.len() && r@[j] == k;
                }
            }
        }
        r
    }

    /// Copies of all players online.
    pub fn get_all_players(&self) -> (r: Vec<Player>)
        requires
            self.well_formed(),
        ensures
            r@.len() == self.spec_players().len(),
            forall|i: int| 0 <= i < r@.len() ==> #[trigger] self.spec_players().contains_key(r@[i].id)
                && spec_same_player(self.spec_players()[r@[i].id], r@[i]),
            forall|k: u128| #[trigger] self.spec_players().contains_key(k) ==> exists|i: int| 0 <= i < r@.len() && r@[i].id == k,
    {
        let ids = self.get_all_player_ids();
        let mut r: Vec<Player> = Vec::new();
        let mut i: usize = 0;
        while i < ids.len()
            invariant
                i <= ids@.len(),
                self.well_formed(),
                ids@.len() == self.spec_players().len(),
                forall|k: u128| #[trigger] ids@.contains(k) <==> self.spec_players().contains_key(k),
                r@.len() == i,
                forall|j: int| 0 <= j < i ==> (#[trigger] r@[j]).id == ids@[j]
                    && spec_same_player(self.spec_players()[ids@[j]], r@[j]),
            decreases ids@.len() - i,
        {
            assert(ids@.contains(ids@[i as int]));
            match self.players.get(&ids[i]) {
                Some(p) => {
                    r.push(p.clone());
                },
                None => {
                    assert(false);
                },
            }
            i = i + 1;
        }
        proof {
            assert forall|j: int| 0 <= j < r@.len() implies #[trigger] self.spec_players().contains_key(r@[j].id)
                && spec_same_player(self.spec_players()[r@[j].id], r@[j]) by {
                assert(ids@.contains(ids@[j]));
            }
            assert forall|k: u128| #[trigger] self.spec_players().contains_key(k) implies exists|i: int| 0 <= i < r@.len() && r@[i].id == k by {
                assert(ids@.contains(k));
                let j = choose|j: int| 0 <= j < ids@.len() && ids@[j] == k;
                assert(r@[j].id == k);
            }
        }
        r
    }
}

impl Default for MapState {
    fn default() -> (s: Self)
        ensures
            s.well_formed(),
            s.spec_players() == Map::<u128, Player>::empty(),
            s.spec_index() == Map::<Seq<char>, Seq<u128>>::empty(),
    {
        MapState::new()
    }
}

} // verus!
