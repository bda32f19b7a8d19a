//! Map edges that carry players to neighbouring maps, save points, and the
//! rules for warping between maps.

use vstd::prelude::*;
use std::collections::HashMap;
use crate::strmap::StrMap;
use crate::text::{owned, concat};
use crate::clock::now_millis;

verus! {

broadcast use vstd::std_specs::hash::group_hash_axioms;

/// A border of a map that sends players across when they reach it.
#[derive(Debug, Clone, Copy, PartialEq, Eq, Structural)]
pub enum MapEdge {
    /// Reached when `y <= y_threshold`.
    North { y_threshold: u16 },
    /// Reached when `y >= y_threshold`.
    South { y_threshold: u16 },
    /// Reached when `x >= x_threshold`.
    East { x_threshold: u16 },
    /// Reached when `x <= x_threshold`.
    West { x_threshold: u16 },
}

/// Whether standing at `(x, y)` reaches the edge.
pub open spec fn spec_edge_triggered(edge: MapEdge, x: u16, y: u16) -> bool {
    match edge {
        MapEdge::North { y_threshold } => y <= y_threshold,
        MapEdge::South { y_threshold } => y >= y_threshold,
        MapEdge::East { x_threshold } => x >= x_threshold,
        MapEdge::West { x_threshold } => x <= x_threshold,
    }
}

impl MapEdge {
    pub fn is_triggered(&self, x: u16, y: u16) -> (b: bool)
        ensures
            b == spec_edge_triggered(*self, x, y),
    {
        match self {
            MapEdge::North { y_threshold } => y <= *y_threshold,
            MapEdge::South { y_threshold } => y >= *y_threshold,
            MapEdge::East { x_threshold } => x >= *x_threshold,
            MapEdge::West { x_threshold } => x <= *x_threshold,
        }
    }
}

/// A connection from an edge of one map into another map; the entry point
/// is the position on the edge shifted by `entry_offset`.
#[derive(Debug)]
pub struct MapAdjacency {
    pub from_map: String,
    pub edge: MapEdge,
    pub to_map: String,
    pub entry_offset: (i16, i16),
}

/// A warp to carry out.
#[derive(Debug, PartialEq)]
pub struct TeleportAction {
    pub from_map: String,
    pub to_map: String,
    pub from_pos: (u16, u16),
    pub to_pos: (u16, u16),
}

impl Clone for MapAdjacency {
    fn clone(&self) -> (r: Self)
        ensures
            r.from_map@ == self.from_map@,
            r.edge == self.edge,
            r.to_map@ == self.to_map@,
            r.entry_offset == self.entry_offset,
    {
        MapAdjacency {
            from_map: self.from_map.clone(),
            edge: self.edge,
            to_map: self.to_map.clone(),
            entry_offset: (self.entry_offset.0, self.entry_offset.1),
        }
    }
}

impl Clone for TeleportAction {
    fn clone(&self) -> (r: Self)
        ensures
            r.from_map@ == self.from_map@,
            r.to_map@ == self.to_map@,
            r.from_pos == self.from_pos,
            r.to_pos == self.to_pos,
    {
        TeleportAction {
            from_map: self.from_map.clone(),
            to_map: self.to_map.clone(),
            from_pos: (self.from_pos.0, self.from_pos.1),
            to_pos: (self.to_pos.0, self.to_pos.1),
        }
    }
}

/// A place a character saved to return to.
#[derive(Debug, Clone, PartialEq)]
pub struct SavePoint {
    pub map_name: String,
    pub x: u16,
    pub y: u16,
}

impl SavePoint {
    pub fn new(map_name: &str, x: u16, y: u16) -> (p: Self)
        ensures
            p.map_name@ == map_name@,
            p.x == x,
            p.y == y,
    {
        SavePoint { map_name: owned(map_name), x, y }
    }
}

/// The save points of characters, by character id.
#[derive(Debug)]
pub struct SavePointManager {
    save_points: HashMap<u32, SavePoint>,
}

impl SavePointManager {
    /// The save points, by character id.
    pub closed spec fn spec_points(&self) -> Map<u32, SavePoint> {
        self.save_points@
    }

    pub fn new() -> (m: Self)
        ensures
            m.spec_points() == Map::<u32, SavePoint>::empty(),
    {
        SavePointManager { save_points: HashMap::new() }
    }

    /// Sets (or replaces) a character's save point.
    pub fn set_save_point(&mut self, char_id: u32, save_point: SavePoint)
        ensures
            final(self).spec_points() == old(self).spec_points().insert(char_id, save_point),
    {
        self.save_points.insert(char_id, save_point);
    }

    /// A character's save point.
    pub fn get_save_point(&self, char_id: u32) -> (r: Option<&SavePoint>)
        ensures
            match r {
                Some(p) => self.spec_points().contains_key(char_id) && *p == self.spec_points()[char_id],
                None => !self.spec_points().contains_key(char_id),
            },
    {
        self.save_points.get(&char_id)
    }

    /// Whether a character has a save point.
    pub fn has_save_point(&self, char_id: u32) -> (b: bool)
        ensures
            b == self.spec_points().contains_key(char_id),
    {
        self.save_points.contains_key(&char_id)
    }

    /// Removes a character's save point, handing it back.
    pub fn remove_save_point(&mut self, char_id: u32) -> (r: Option<SavePoint>)
        ensures
            final(self).spec_points() == old(self).spec_points().remove(char_id),
            r == (if old(self).spec_points().contains_key(char_id) {
                Some(old(self).spec_points()[char_id])
            } else {
                None
            }),
    {
        self.save_points.remove(&char_id)
    }
}

/// Reading a save point back after setting it gives what was set; other
/// characters' save points are untouched.
pub proof fn lemma_save_point_read_after_write(m: Map<u32, SavePoint>, char_id: u32, other: u32, p: SavePoint)
    requires
        other != char_id,
    ensures
        m.insert(char_id, p).contains_key(char_id),
        m.insert(char_id, p)[char_id] == p,
        m.insert(char_id, p).contains_key(other) == m.contains_key(other),
        m.contains_key(other) ==> m.insert(char_id, p)[other] == m[other],
        !m.insert(char_id, p).remove(char_id).contains_key(char_id),
{
}

/// Why a warp failed.
#[derive(Debug)]
pub enum WarpError {
    DatabaseError(String),
    PlayerNotFound,
    InvalidTargetMap,
    CooldownActive,
}

impl WarpError {
    /// The error as a line of text.
    pub fn message(&self) -> (s: String)
        ensures
            match *self {
                WarpError::DatabaseError(msg) => s@ == "Database error: "@ + msg@,
                WarpError::PlayerNotFound => s@ == "Player not found"@,
                WarpError::InvalidTargetMap => s@ == "Invalid target map"@,
                WarpError::CooldownActive => s@ == "Warp cooldown active"@,
            },
    {
        match self {
            WarpError::DatabaseError(msg) => concat("Database error: ", msg.as_str()),
            WarpError::PlayerNotFound => owned("Player not found"),
            WarpError::InvalidTargetMap => owned("Invalid target map"),
            WarpError::CooldownActive => owned("Warp cooldown active"),
        }
    }
}

} // verus!

verus! {

/// The indices of the adjacencies leaving map `k`, in the order they were added.
pub open spec fn spec_indices_of(adjs: Seq<MapAdjacency>, k: Seq<char>) -> Seq<usize>
    decreases adjs.len(),
{
    if adjs.len() == 0 {
        Seq::empty()
    } else {
        let rest = spec_indices_of(adjs.drop_last(), k);
        if adjs.last().from_map@ == k {
            rest.push((adjs.len() - 1) as usize)
        } else {
            rest
        }
    }
}

proof fn lemma_indices_of(adjs: Seq<MapAdjacency>, k: Seq<char>)
    requires
        adjs.len() <= usize::MAX,
    ensures
        forall|t: int| 0 <= t < spec_indices_of(adjs, k).len() ==> {
            &&& #[trigger] spec_indices_of(adjs, k)[t] < adjs.len()
            &&& adjs[spec_indices_of(adjs, k)[t] as int].from_map@ == k
        },
        forall|t1: int, t2: int| 0 <= t1 < t2 < spec_indices_of(adjs, k).len() ==>
            #[trigger] spec_indices_of(adjs, k)[t1] < #[trigger] spec_indices_of(adjs, k)[t2],
        forall|j: int| 0 <= j < adjs.len() && (#[trigger] adjs[j]).from_map@ == k ==>
            exists|t: int| 0 <= t < spec_indices_of(adjs, k).len() && spec_indices_of(adjs, k)[t] == j,
    decreases adjs.len(),
{
    if adjs.len() > 0 {
        let rest = adjs.drop_last();
        lemma_indices_of(rest, k);
        let ind = spec_indices_of(adjs, k);
        let rind = spec_indices_of(rest, k);
        assert forall|j: int| 0 <= j < adjs.len() && (#[trigger] adjs[j]).from_map@ == k implies
            exists|t: int| 0 <= t < ind.len() && ind[t] == j by {
            if j < adjs.len() - 1 {
                assert(rest[j] == adjs[j]);
                let t = choose|t: int| 0 <= t < rind.len() && rind[t] == j;
                assert(ind[t] == j);
            } else {
                assert(ind[ind.len() - 1] == j);
            }
        }
        assert forall|t: int| 0 <= t < ind.len() implies {
            &&& #[trigger] ind[t] < adjs.len()
            &&& adjs[ind[t] as int].from_map@ == k
        } by {
            if t < rind.len() {
                assert(ind[t] == rind[t]);
                assert(rest[rind[t] as int] == adjs[rind[t] as int]);
            }
        }
    }
}

/// Whether adjacency `a` fires for a player on `map` at `(x, y)`.
pub open spec fn spec_adjacency_fires(a: MapAdjacency, map: Seq<char>, x: u16, y: u16) -> bool {
    a.from_map@ == map && spec_edge_triggered(a.edge, x, y)
}

/// `i` is the first adjacency, in the order they were added, that fires.
pub open spec fn spec_first_firing(adjs: Seq<MapAdjacency>, map: Seq<char>, x: u16, y: u16, i: int) -> bool {
    &&& 0 <= i < adjs.len()
    &&& spec_adjacency_fires(adjs[i], map, x, y)
    &&& forall|j: int| 0 <= j < i ==> !spec_adjacency_fires(#[trigger] adjs[j], map, x, y)
}

/// A coordinate shifted by an offset, as a signed 16-bit number, and clamped at 0.
pub open spec fn spec_entry_coord(c: u16, off: i16) -> u16 {
    let s = (c as i16) as int + off as int;
    if s < 0 { 0 } else { s as u16 }
}

/// Shifting `c` (read as a signed 16-bit number) by `off` stays in range.
pub open spec fn spec_entry_fits(c: u16, off: i16) -> bool {
    i16::MIN <= (c as i16) as int + off as int <= i16::MAX
}

/// The warp that adjacency `a` makes for a player on `map` at `(x, y)`.
pub open spec fn spec_warp_of(a: MapAdjacency, map: Seq<char>, x: u16, y: u16, r: TeleportAction) -> bool {
    &&& r.from_map@ == map
    &&& r.to_map@ == a.to_map@
    &&& r.from_pos == (x, y)
    &&& r.to_pos == (spec_entry_coord(x, a.entry_offset.0), spec_entry_coord(y, a.entry_offset.1))
}

fn entry_coord(c: u16, off: i16) -> (r: u16)
    requires
        spec_entry_fits(c, off),
    ensures
        r == spec_entry_coord(c, off),
{
    let s = (c as i16) + off;
    if s < 0 { 0 } else { s as u16 }
}

/// What a move of `player_id` to `(x, y)` on `map` at `now_ms` gives: no
/// warp while the player's cooldown runs; otherwise the warp of the first
/// adjacency that fires, if any, recorded as the player's last warp. The
/// adjacencies never change.
pub open spec fn spec_warp_outcome(o: TeleportManager, f: TeleportManager, player_id: u128, map: Seq<char>, x: u16, y: u16,
    now_ms: u64, r: Option<TeleportAction>) -> bool {
    let ready = !o.spec_cooldowns().contains_key(player_id) || now_ms - o.spec_cooldowns()[player_id] >= 1000;
    &&& f.spec_adjacencies() == o.spec_adjacencies()
    &&& !ready ==> r is None && f.spec_cooldowns() == o.spec_cooldowns()
    &&& match r {
        Some(a) => {
            &&& exists|i: int| spec_first_firing(o.spec_adjacencies(), map, x, y, i)
                && spec_warp_of(o.spec_adjacencies()[i], map, x, y, a)
            &&& f.spec_cooldowns() == o.spec_cooldowns().insert(player_id, now_ms)
        },
        None => f.spec_cooldowns() == o.spec_cooldowns(),
    }
    &&& ready && (exists|i: int| spec_first_firing(o.spec_adjacencies(), map, x, y, i)) ==> r is Some
}

/// The map adjacencies and each player's last warp time.
#[derive(Debug)]
pub struct TeleportManager {
    adjacencies: Vec<MapAdjacency>,
    adjacency_map: StrMap<Vec<usize>>,
    warp_cooldown: HashMap<u128, u64>,
}

impl TeleportManager {
    /// The least time between two warps of one player, in milliseconds.
    pub const WARP_COOLDOWN_MS: u64 = 1000;

    /// The adjacencies, in the order they were added.
    pub closed spec fn spec_adjacencies(&self) -> Seq<MapAdjacency> {
        self.adjacencies@
    }

    /// When each player last warped, in milliseconds.
    pub closed spec fn spec_cooldowns(&self) -> Map<u128, u64> {
        self.warp_cooldown@
    }

    /// The lookup table lists, for each map, the adjacencies leaving it.
    pub closed spec fn well_formed(&self) -> bool {
        &&& forall|k: Seq<char>| #[trigger] self.adjacency_map@.contains_key(k) ==>
            self.adjacency_map@[k]@ == spec_indices_of(self.adjacencies@, k)
        &&& forall|k: Seq<char>| !self.adjacency_map@.contains_key(k) ==>
            (#[trigger] spec_indices_of(self.adjacencies@, k)).len() == 0
    }

    pub fn new() -> (m: Self)
        ensures
            m.well_formed(),
            m.spec_adjacencies() == Seq::<MapAdjacency>::empty(),
            m.spec_cooldowns() == Map::<u128, u64>::empty(),
    {
        TeleportManager { adjacencies: Vec::new(), adjacency_map: StrMap::new(), warp_cooldown: HashMap::new() }
    }

    /// The built-in adjacencies between the novice field and Prontera: each
    /// map's north and south edges lead to the other map.
    pub fn get_default_adjacencies() -> (v: Vec<MapAdjacency>)
        ensures
            v@.len() == 4,
            v@[0].from_map@ == "new_1-1.gat"@ && v@[0].edge == (MapEdge::North { y_threshold: 0 })
                && v@[0].to_map@ == "prontera.gat"@ && v@[0].entry_offset == (0i16, 299i16),
            v@[1].from_map@ == "new_1-1.gat"@ && v@[1].edge == (MapEdge::South { y_threshold: 199 })
                && v@[1].to_map@ == "prontera.gat"@ && v@[1].entry_offset == (0i16, -199i16),
            v@[2].from_map@ == "prontera.gat"@ && v@[2].edge == (MapEdge::South { y_threshold: 299 })
                && v@[2].to_map@ == "new_1-1.gat"@ && v@[2].entry_offset == (0i16, -299i16),
            v@[3].from_map@ == "prontera.gat"@ && v@[3].edge == (MapEdge::North { y_threshold: 0 })
                && v@[3].to_map@ == "new_1-1.gat"@ && v@[3].entry_offset == (0i16, 199i16),
    {
        let mut v: Vec<MapAdjacency> = Vec::new();
        v.push(MapAdjacency {
            from_map: owned("new_1-1.gat"),
            edge: MapEdge::North { y_threshold: 0 },
            to_map: owned("prontera.gat"),
            entry_offset: (0, 299),
        });
        v.push(MapAdjacency {
            from_map: owned("new_1-1.gat"),
            edge: MapEdge::South { y_threshold: 199 },
            to_map: owned("prontera.gat"),
            entry_offset: (0, -199),
        });
        v.push(MapAdjacency {
            from_map: owned("prontera.gat"),
            edge: MapEdge::South { y_threshold: 299 },
            to_map: owned("new_1-1.gat"),
            entry_offset: (0, -299),
        });
        v.push(MapAdjacency {
            from_map: owned("prontera.gat"),
            edge: MapEdge::North { y_threshold: 0 },
            to_map: owned("new_1-1.gat"),
            entry_offset: (0, 199),
        });
        v
    }

    /// How many adjacencies there are.
    pub fn adjacency_count(&self) -> (n: usize)
        ensures
            n == self.spec_adjacencies().len(),
    {
        self.adjacencies.len()
    }

    /// Whether some adjacency leaves map `map_name`.
    pub fn has_adjacencies_from(&self, map_name: &str) -> (b: bool)
        requires
            self.well_formed(),
        ensures
            b == exists|i: int| 0 <= i < self.spec_adjacencies().len() && (#[trigger] self.spec_adjacencies()[i]).from_map@ == map_name@,
    {
        proof {
            assert(self.adjacencies@.len() == self.adjacencies.len());
            lemma_indices_of(self.adjacencies@, map_name@);
        }
        let ghost ind = spec_indices_of(self.adjacencies@, map_name@);
        let r = match self.adjacency_map.get(map_name) {
            Some(l) => l.len() > 0,
            None => false,
        };
        proof {
            if r {
                assert(self.adjacencies@[ind[0] as int].from_map@ == map_name@);
            } else {
                if exists|i: int| 0 <= i < self.spec_adjacencies().len() && (#[trigger] self.spec_adjacencies()[i]).from_map@ == map_name@ {
                    let i = choose|i: int| 0 <= i < self.spec_adjacencies().len() && (#[trigger] self.spec_adjacencies()[i]).from_map@ == map_name@;
                    let t = choose|t: int| 0 <= t < ind.len() && ind[t] == i;
                }
            }
        }
        r
    }

    /// Adds an adjacency after the existing ones.
    pub fn add_adjacency(&mut self, adj: MapAdjacency)
        requires
            old(self).well_formed(),
        ensures
            final(self).well_formed(),
            final(self).spec_adjacencies() == old(self).spec_adjacencies().push(adj),
            final(self).spec_cooldowns() == old(self).spec_cooldowns(),
    {
        let index = self.adjacencies.len();
        let from_map = adj.from_map.clone();
        self.adjacencies.push(adj);
        let mut list = match self.adjacency_map.remove(from_map.as_str()) {
            Some(l) => l,
            None => Vec::new(),
        };
        list.push(index);
        self.adjacency_map.insert(from_map, list);
        proof {
            let na = self.adjacencies@;
            assert(na.drop_last() =~= old(self).adjacencies@);
            assert(na.last() == adj);
            assert forall|k: Seq<char>| #![trigger spec_indices_of(na, k)] true implies spec_indices_of(na, k) == (
                if adj.from_map@ == k {
                    spec_indices_of(old(self).adjacencies@, k).push(index)
                } else {
                    spec_indices_of(old(self).adjacencies@, k)
                }) by {
                assert(na.len() > 0);
            }
            assert forall|k: Seq<char>| #[trigger] self.adjacency_map@.contains_key(k) implies
                self.adjacency_map@[k]@ == spec_indices_of(self.adjacencies@, k) by {
                assert(spec_indices_of(na, k) == (
                    if adj.from_map@ == k {
                        spec_indices_of(old(self).adjacencies@, k).push(index)
                    } else {
                        spec_indices_of(old(self).adjacencies@, k)
                    }));
                if k != adj.from_map@ {
                    assert(old(self).adjacency_map@.contains_key(k));
                } else if old(self).adjacency_map@.contains_key(k) {
                    assert(self.adjacency_map@[k]@ == old(self).adjacency_map@[k]@.push(index));
                } else {
                    assert(self.adjacency_map@[k]@ =~= Seq::<usize>::empty().push(index));
                    assert(spec_indices_of(old(self).adjacencies@, k) =~= Seq::<usize>::empty());
                }
            }
            assert forall|k: Seq<char>| !self.adjacency_map@.contains_key(k) implies
                (#[trigger] spec_indices_of(self.adjacencies@, k)).len() == 0 by {
                assert(k != adj.from_map@);
                assert(spec_indices_of(na, k) == spec_indices_of(old(self).adjacencies@, k));
                assert(!old(self).adjacency_map@.contains_key(k));
            }
        }
    }

    /// Whether a player may warp at time `now_ms` (milliseconds): never
    /// warped, or the last warp lies at least `WARP_COOLDOWN_MS` back.
    pub fn can_warp(&self, player_id: u128, now_ms: u64) -> (b: bool)
        ensures
            b == (!self.spec_cooldowns().contains_key(player_id)
                || now_ms - self.spec_cooldowns()[player_id] >= 1000),
    {
        match self.warp_cooldown.get(&player_id) {
            Some(last_warp) => now_ms >= *last_warp && now_ms - *last_warp >= Self::WARP_COOLDOWN_MS,
            None => true,
        }
    }

    /// Records that a player warped at time `now_ms`.
    pub fn record_warp(&mut self, player_id: u128, now_ms: u64)
        ensures
            final(self).spec_cooldowns() == old(self).spec_cooldowns().insert(player_id, now_ms),
            final(self).spec_adjacencies() == old(self).spec_adjacencies(),
            old(self).well_formed() ==> final(self).well_formed(),
    {
        self.warp_cooldown.insert(player_id, now_ms);
    }

    /// The warp a player on `map_name` standing at `(x, y)` makes: the first
    /// adjacency leaving the map, in the order they were added, whose edge
    /// the position reaches; the entry point is the position shifted by the
    /// adjacency's offset and clamped at 0.
    pub fn check_warp_trigger(&self, map_name: &str, x: u16, y: u16) -> (r: Option<TeleportAction>)
        requires
            self.well_formed(),
            forall|i: int| spec_first_firing(self.spec_adjacencies(), map_name@, x, y, i) ==>
                spec_entry_fits(x, self.spec_adjacencies()[i].entry_offset.0)
                && spec_entry_fits(y, self.spec_adjacencies()[i].entry_offset.1),
        ensures
            match r {
                Some(a) => exists|i: int| spec_first_firing(self.spec_adjacencies(), map_name@, x, y, i)
                    && spec_warp_of(self.spec_adjacencies()[i], map_name@, x, y, a),
                None => forall|i: int| 0 <= i < self.spec_adjacencies().len() ==>
                    !spec_adjacency_fires(#[trigger] self.spec_adjacencies()[i], map_name@, x, y),
            },
    {
        proof {
            assert(self.adjacencies@.len() == self.adjacencies.len());
            lemma_indices_of(self.adjacencies@, map_name@);
        }
        let ghost ind = spec_indices_of(self.adjacencies@, map_name@);
        let indices = match self.adjacency_map.get(map_name) {
            Some(l) => l,
            None => {
                proof {
                    assert forall|i: int| 0 <= i < self.spec_adjacencies().len() implies
                        !spec_adjacency_fires(#[trigger] self.spec_adjacencies()[i], map_name@, x, y) by {
                        if self.adjacencies@[i].from_map@ == map_name@ {
                            let t = choose|t: int| 0 <= t < ind.len() && ind[t] == i;
                        }
                    }
                }
                return None;
            },
        };
        let mut t: usize = 0;
        while t < indices.len()
            invariant
                indices@ == ind,
                t <= ind.len(),
                forall|t2: int| 0 <= t2 < ind.len() ==> {
                    &&& #[trigger] ind[t2] < self.adjacencies@.len()
                    &&& self.adjacencies@[ind[t2] as int].from_map@ == map_name@
                },
                forall|t1: int, t2: int| 0 <= t1 < t2 < ind.len() ==> #[trigger] ind[t1] < #[trigger] ind[t2],
                forall|j: int| 0 <= j < self.adjacencies@.len() && (#[trigger] self.adjacencies@[j]).from_map@ == map_name@ ==>
                    exists|t3: int| 0 <= t3 < ind.len() && ind[t3] == j,
                forall|t2: int| 0 <= t2 < t ==> !spec_edge_triggered(self.adjacencies@[#[trigger] ind[t2] as int].edge, x, y),
                forall|i: int| spec_first_firing(self.spec_adjacencies(), map_name@, x, y, i) ==>
                    spec_entry_fits(x, self.spec_adjacencies()[i].entry_offset.0)
                    && spec_entry_fits(y, self.spec_adjacencies()[i].entry_offset.1),
            decreases ind.len() - t,
        {
            let index = indices[t];
            let adj = &self.adjacencies[index];
            if adj.edge.is_triggered(x, y) {
                proof {
                    assert forall|j: int| 0 <= j < index implies
                        !spec_adjacency_fires(#[trigger] self.adjacencies@[j], map_name@, x, y) by {
                        if self.adjacencies@[j].from_map@ == map_name@ {
                            let t3 = choose|t3: int| 0 <= t3 < ind.len() && ind[t3] == j;
                            if t3 >= t {
                                if t3 > t {
                                    assert(ind[t as int] < ind[t3]);
                                }
                            }
                        }
                    }
                    assert(spec_first_firing(self.spec_adjacencies(), map_name@, x, y, index as int));
                }
                let to_x = entry_coord(x, adj.entry_offset.0);
                let to_y = entry_coord(y, adj.entry_offset.1);
                let action = TeleportAction {
                    from_map: owned(map_name),
                    to_map: adj.to_map.clone(),
                    from_pos: (x, y),
                    to_pos: (to_x, to_y),
                };
                assert(spec_warp_of(self.spec_adjacencies()[index as int], map_name@, x, y, action));
                return Some(action);
            }
            t = t + 1;
        }
        proof {
            assert forall|i: int| 0 <= i < self.spec_adjacencies().len() implies
                !spec_adjacency_fires(#[trigger] self.spec_adjacencies()[i], map_name@, x, y) by {
                if self.adjacencies@[i].from_map@ == map_name@ {
                    let t3 = choose|t3: int| 0 <= t3 < ind.len() && ind[t3] == i;
                    assert(!spec_edge_triggered(self.adjacencies@[ind[t3] as int].edge, x, y));
                }
            }
        }
        None
    }

    /// Checks the cooldown, then the edges; when a warp fires it is recorded at `now_ms`.
    pub fn check_and_trigger_warp(&mut self, player_id: u128, map_name: &str, x: u16, y: u16, now_ms: u64) -> (r: Option<TeleportAction>)
        requires
            old(self).well_formed(),
            forall|i: int| spec_first_firing(old(self).spec_adjacencies(), map_name@, x, y, i) ==>
                spec_entry_fits(x, old(self).spec_adjacencies()[i].entry_offset.0)
                && spec_entry_fits(y, old(self).spec_adjacencies()[i].entry_offset.1),
        ensures
            final(self).well_formed(),
            spec_warp_outcome(*old(self), *final(self), player_id, map_name@, x, y, now_ms, r),
    {
        if !self.can_warp(player_id, now_ms) {
            return None;
        }
        let action = self.check_warp_trigger(map_name, x, y);
        match action {
            Some(a) => {
                self.record_warp(player_id, now_ms);
                Some(a)
            },
            None => {
                proof {
                    if exists|i: int| spec_first_firing(old(self).spec_adjacencies(), map_name@, x, y, i) {
                        let i = choose|i: int| spec_first_firing(old(self).spec_adjacencies(), map_name@, x, y, i);
                        assert(spec_adjacency_fires(old(self).spec_adjacencies()[i], map_name@, x, y));
                    }
                }
                None
            },
        }
    }

    /// The same check at the current time of the system clock.
    pub fn check_and_trigger_warp_now(&mut self, player_id: u128, map_name: &str, x: u16, y: u16) -> (r: Option<TeleportAction>)
        requires
            old(self).well_formed(),
            forall|i: int| spec_first_firing(old(self).spec_adjacencies(), map_name@, x, y, i) ==>
                spec_entry_fits(x, old(self).spec_adjacencies()[i].entry_offset.0)
                && spec_entry_fits(y, old(self).spec_adjacencies()[i].entry_offset.1),
        ensures
            final(self).well_formed(),
            exists|now: u64| #[trigger] spec_warp_outcome(*old(self), *final(self), player_id, map_name@, x, y, now, r),
    {
        let now = now_millis();
        self.check_and_trigger_warp(player_id, map_name, x, y, now)
    }

    /// Forgets the cooldowns that have run out at `now_ms`.
    pub fn cleanup_expired_cooldowns(&mut self, now_ms: u64)
        ensures
            final(self).spec_adjacencies() == old(self).spec_adjacencies(),
            old(self).well_formed() ==> final(self).well_formed(),
            forall|p: u128| #[trigger] final(self).spec_cooldowns().contains_key(p) <==>
                old(self).spec_cooldowns().contains_key(p) && now_ms - old(self).spec_cooldowns()[p] < 1000,
            forall|p: u128| #[trigger] final(self).spec_cooldowns().contains_key(p) ==>
                final(self).spec_cooldowns()[p] == old(self).spec_cooldowns()[p],
    {
        let mut keys: Vec<u128> = Vec::new();
        for k in it: self.warp_cooldown.keys()
            invariant
                keys@.len() == it.index(),
                forall|j: int| 0 <= j < it.index() ==> keys@[j] == *it.seq()[j],
                forall|p: u128| #[trigger] old(self).spec_cooldowns().contains_key(p) && !keys@.contains(p) ==>
                    exists|j: int| it.index() <= j < it.seq().len() && *it.seq()[j] == p,
        {
            proof {
                assert forall|p: u128| #[trigger] old(self).spec_cooldowns().contains_key(p)
                    && !keys@.push(*k).contains(p) implies
                    exists|j: int| it.index() + 1 <= j < it.seq().len() && *it.seq()[j] == p by {
                    assert(!keys@.contains(p)) by {
                        if keys@.contains(p) {
                            let j = choose|j: int| 0 <= j < keys@.len() && keys@[j] == p;
                            assert(keys@.push(*k)[j] == p);
                        }
                    }
                    let j = choose|j: int| it.index() <= j < it.seq().len() && *it.seq()[j] == p;
                    if j == it.index() {
                        assert(keys@.push(*k)[keys@.len() as int] == p);
                    }
                }
            }
            keys.push(*k);
        }
        assert(forall|p: u128| old(self).spec_cooldowns().contains_key(p) ==> keys@.contains(p));
        let mut i: usize = 0;
        while i < keys.len()
            invariant
                i <= keys@.len(),
                self.adjacencies@ == old(self).adjacencies@,
                self.adjacency_map@ == old(self).adjacency_map@,
                forall|p: u128| old(self).spec_cooldowns().contains_key(p) ==> keys@.contains(p),
                forall|p: u128| #[trigger] self.spec_cooldowns().contains_key(p) ==>
                    old(self).spec_cooldowns().contains_key(p) && self.spec_cooldowns()[p] == old(self).spec_cooldowns()[p],
                forall|p: u128| #[trigger] old(self).spec_cooldowns().contains_key(p) && now_ms - old(self).spec_cooldowns()[p] < 1000
                    ==> self.spec_cooldowns().contains_key(p),
                forall|j: int| 0 <= j < i && #[trigger] old(self).spec_cooldowns().contains_key(keys@[j])
                    && now_ms - old(self).spec_cooldowns()[keys@[j]] >= 1000 ==> !self.spec_cooldowns().contains_key(keys@[j]),
            decreases keys@.len() - i,
        {
            let k = keys[i];
            let expired = match self.warp_cooldown.get(&k) {
                Some(last) => !(now_ms < *last || now_ms - *last < Self::WARP_COOLDOWN_MS),
                None => false,
            };
            if expired {
                let ghost prev = *self;
                let ghost pre = self.warp_cooldown@;
                self.warp_cooldown.remove(&k);
                proof {
                    assert(self.warp_cooldown@ =~= pre.remove(k));
                    assert forall|p: u128| #[trigger] self.spec_cooldowns().contains_key(p) implies
                        prev.spec_cooldowns().contains_key(p) && self.spec_cooldowns()[p] == prev.spec_cooldowns()[p] by {
                        assert(self.spec_cooldowns() == pre.remove(k));
                    }
                }
            }
            i = i + 1;
        }
        proof {
            assert forall|p: u128| #[trigger] self.spec_cooldowns().contains_key(p) <==>
                old(self).spec_cooldowns().contains_key(p) && now_ms - old(self).spec_cooldowns()[p] < 1000 by {
                if old(self).spec_cooldowns().contains_key(p) && now_ms - old(self).spec_cooldowns()[p] >= 1000 {
                    let j = choose|j: int| 0 <= j < keys@.len() && keys@[j] == p;
                }
            }
        }
    }
}


impl Default for TeleportManager {
    fn default() -> (m: Self)
        ensures
            m.well_formed(),
            m.spec_adjacencies() == Seq::<MapAdjacency>::empty(),
            m.spec_cooldowns() == Map::<u128, u64>::empty(),
    {
        TeleportManager::new()
    }
}

} // verus!

verus! {

/// What a warp needs of a client's session: the player and the character
/// it is logged in as, when known.
#[derive(Debug, Clone, Copy, PartialEq, Eq, Structural)]
pub struct WarpSession {
    pub player_id: Option<u128>,
    pub char_id: Option<u32>,
}

/// Where a character is to be stored after a warp.
#[derive(Debug)]
pub struct StoredPosition {
    pub char_id: u32,
    pub map_name: String,
    pub x: i32,
    pub y: i32,
}

/// Warps players across map edges and back to their save points.
pub struct WarpService {
    teleport_manager: TeleportManager,
    save_point_manager: SavePointManager,
}

impl WarpService {
    /// The edge warps and cooldowns.
    pub closed spec fn spec_teleport(&self) -> TeleportManager {
        self.teleport_manager
    }

    /// The save points, by character id.
    pub closed spec fn spec_save_points(&self) -> Map<u32, SavePoint> {
        self.save_point_manager.spec_points()
    }

    pub fn new(teleport_manager: TeleportManager, save_point_manager: SavePointManager) -> (s: Self)
        ensures
            s.spec_teleport() == teleport_manager,
            s.spec_save_points() == save_point_manager.spec_points(),
    {
        WarpService { teleport_manager, save_point_manager }
    }

    /// Sets (or replaces) a character's save point.
    pub fn set_save_point(&mut self, char_id: u32, map_name: &str, x: u16, y: u16)
        ensures
            final(self).spec_teleport() == old(self).spec_teleport(),
            final(self).spec_save_points().dom() == old(self).spec_save_points().dom().insert(char_id),
            final(self).spec_save_points()[char_id].map_name@ == map_name@,
            final(self).spec_save_points()[char_id].x == x && final(self).spec_save_points()[char_id].y == y,
            forall|c: u32| c != char_id && #[trigger] old(self).spec_save_points().contains_key(c) ==>
                final(self).spec_save_points()[c] == old(self).spec_save_points()[c],
    {
        self.save_point_manager.set_save_point(char_id, SavePoint::new(map_name, x, y));
    }

    /// A copy of a character's save point.
    pub fn get_save_point(&self, char_id: u32) -> (r: Option<SavePoint>)
        ensures
            r is Some <==> self.spec_save_points().contains_key(char_id),
            r matches Some(p) ==> p.map_name@ == self.spec_save_points()[char_id].map_name@
                && p.x == self.spec_save_points()[char_id].x && p.y == self.spec_save_points()[char_id].y,
    {
        match self.save_point_manager.get_save_point(char_id) {
            Some(p) => Some(SavePoint::new(p.map_name.as_str(), p.x, p.y)),
            None => None,
        }
    }

    /// Carries out a warp for the session's player: fails without a player;
    /// otherwise hands back where the character is to be stored (when the
    /// session has a character) for the caller to write.
    pub fn execute_warp(&self, session: &WarpSession, action: TeleportAction) -> (r: Result<Option<StoredPosition>, WarpError>)
        ensures
            session.player_id is None ==> (r matches Err(e) && e == WarpError::PlayerNotFound),
            session.player_id is Some ==> (r matches Ok(o) && match session.char_id {
                Some(c) => o matches Some(p) && p.char_id == c && p.map_name@ == action.to_map@
                    && p.x == action.to_pos.0 as i32 && p.y == action.to_pos.1 as i32,
                None => o is None,
            }),
    {
        if session.player_id.is_none() {
            return Err(WarpError::PlayerNotFound);
        }
        match session.char_id {
            Some(c) => Ok(Some(StoredPosition {
                char_id: c,
                map_name: action.to_map,
                x: action.to_pos.0 as i32,
                y: action.to_pos.1 as i32,
            })),
            None => Ok(None),
        }
    }

    /// Sends the session's character back to its save point. Fails, in this
    /// order, without a character, without a save point, or without a player.
    pub fn use_return(&self, session: &WarpSession) -> (r: Result<TeleportAction, WarpError>)
        ensures
            match session.char_id {
                None => r matches Err(e) && e == WarpError::PlayerNotFound,
                Some(c) => if !self.spec_save_points().contains_key(c) {
                    r matches Err(e) && e == WarpError::InvalidTargetMap
                } else if session.player_id is None {
                    r matches Err(e) && e == WarpError::PlayerNotFound
                } else {
                    r matches Ok(a) && a.from_map@ == "current"@ && a.to_map@ == self.spec_save_points()[c].map_name@
                        && a.from_pos == (0u16, 0u16) && a.to_pos == (self.spec_save_points()[c].x, self.spec_save_points()[c].y)
                },
            },
    {
        let char_id = match session.char_id {
            Some(c) => c,
            None => return Err(WarpError::PlayerNotFound),
        };
        let save_point = match self.get_save_point(char_id) {
            Some(p) => p,
            None => return Err(WarpError::InvalidTargetMap),
        };
        let action = TeleportAction {
            from_map: owned("current"),
            to_map: owned(save_point.map_name.as_str()),
            from_pos: (0, 0),
            to_pos: (save_point.x, save_point.y),
        };
        let copy = TeleportAction {
            from_map: owned("current"),
            to_map: owned(save_point.map_name.as_str()),
            from_pos: (0, 0),
            to_pos: (save_point.x, save_point.y),
        };
        match self.execute_warp(session, copy) {
            Ok(_) => Ok(action),
            Err(e) => Err(e),
        }
    }

    /// Needs the map's name to check edges, so it never warps.
    pub fn handle_move_with_warp(&mut self, session: &WarpSession, new_x: u16, new_y: u16) -> (r: Option<TeleportAction>)
        ensures
            r is None,
            final(self).spec_teleport() == old(self).spec_teleport(),
    {
        None
    }

    /// Checks a move of the session's player on `map_name` at time `now_ms`
    /// for an edge warp (see `TeleportManager::check_and_trigger_warp`);
    /// nothing happens without a player.
    pub fn handle_move_with_warp_on_map_at(&mut self, session: &WarpSession, map_name: &str, new_x: u16, new_y: u16, now_ms: u64)
        -> (r: Option<TeleportAction>)
        requires
            old(self).spec_teleport().well_formed(),
            forall|i: int| spec_first_firing(old(self).spec_teleport().spec_adjacencies(), map_name@, new_x, new_y, i) ==>
                spec_entry_fits(new_x, old(self).spec_teleport().spec_adjacencies()[i].entry_offset.0)
                && spec_entry_fits(new_y, old(self).spec_teleport().spec_adjacencies()[i].entry_offset.1),
        ensures
            final(self).spec_teleport().well_formed(),
            final(self).spec_save_points() == old(self).spec_save_points(),
            session.player_id is None ==> r is None && final(self).spec_teleport() == old(self).spec_teleport(),
            session.player_id matches Some(p) ==>
                spec_warp_outcome(old(self).spec_teleport(), final(self).spec_teleport(), p, map_name@, new_x, new_y, now_ms, r),
    {
        match session.player_id {
            Some(p) => self.teleport_manager.check_and_trigger_warp(p, map_name, new_x, new_y, now_ms),
            None => None,
        }
    }

    /// The same check at the current time of the system clock.
    pub fn handle_move_with_warp_on_map(&mut self, session: &WarpSession, map_name: &str, new_x: u16, new_y: u16)
        -> (r: Option<TeleportAction>)
        requires
            old(self).spec_teleport().well_formed(),
            forall|i: int| spec_first_firing(old(self).spec_teleport().spec_adjacencies(), map_name@, new_x, new_y, i) ==>
                spec_entry_fits(new_x, old(self).spec_teleport().spec_adjacencies()[i].entry_offset.0)
                && spec_entry_fits(new_y, old(self).spec_teleport().spec_adjacencies()[i].entry_offset.1),
        ensures
            final(self).spec_teleport().well_formed(),
            final(self).spec_save_points() == old(self).spec_save_points(),
            session.player_id is None ==> r is None && final(self).spec_teleport() == old(self).spec_teleport(),
            session.player_id matches Some(p) ==> exists|now: u64|
                #[trigger] spec_warp_outcome(old(self).spec_teleport(), final(self).spec_teleport(), p, map_name@, new_x, new_y, now, r),
    {
        let now = now_millis();
        self.handle_move_with_warp_on_map_at(session, map_name, new_x, new_y, now)
    }
}

} // verus!
