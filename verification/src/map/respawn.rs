//! Where players come back after dying.

use vstd::prelude::*;
use crate::strmap::StrMap;
use crate::text::owned;

verus! {

/// How a player is brought back.
#[derive(Debug, Clone, Copy, PartialEq, Eq, Structural)]
pub enum RespawnType {
    /// Back to the save point or, lacking one, the map's default point.
    Normal,
    /// Back to the map's spawn point.
    InstantCall,
}

/// A place to come back at.
#[derive(Debug, Clone, PartialEq, Eq)]
pub struct RespawnPoint {
    pub map_name: String,
    pub x: u16,
    pub y: u16,
}

impl RespawnPoint {
    pub fn new(map_name: &str, x: u16, y: u16) -> (p: Self)
        ensures
            p.map_name@ == map_name@,
            p.x == x,
            p.y == y,
    {
        RespawnPoint { map_name: owned(map_name), x, y }
    }
}

/// The respawn position as (x, y, map name): the default point of the
/// player's map when it has one, else where the player stands.
pub open spec fn spec_respawn_position(
    map_defaults: Map<Seq<char>, RespawnPoint>,
    player_map: Seq<char>,
    player_pos: (u16, u16),
) -> (u16, u16, Seq<char>) {
    if map_defaults.contains_key(player_map) {
        let p = map_defaults[player_map];
        (p.x, p.y, p.map_name@)
    } else {
        (player_pos.0, player_pos.1, player_map)
    }
}

/// Keeps the global and per-map respawn points.
pub struct RespawnService {
    default_point: RespawnPoint,
    map_defaults: StrMap<RespawnPoint>,
}

impl RespawnService {
    /// The global default point.
    pub closed spec fn spec_global_default(&self) -> RespawnPoint {
        self.default_point
    }

    /// The per-map default points, by map name.
    pub closed spec fn spec_map_defaults(&self) -> Map<Seq<char>, RespawnPoint> {
        self.map_defaults@
    }

    /// A service whose global default is prontera (157, 183) and that knows no map defaults.
    pub fn new() -> (s: Self)
        ensures
            s.spec_global_default().map_name@ == "prontera"@,
            s.spec_global_default().x == 157,
            s.spec_global_default().y == 183,
            s.spec_map_defaults() == Map::<Seq<char>, RespawnPoint>::empty(),
    {
        RespawnService { default_point: RespawnPoint::new("prontera", 157, 183), map_defaults: StrMap::new() }
    }

    /// The same service with another global default.
    pub fn with_default(self, map: &str, x: u16, y: u16) -> (s: Self)
        ensures
            s.spec_global_default().map_name@ == map@,
            s.spec_global_default().x == x,
            s.spec_global_default().y == y,
            s.spec_map_defaults() == self.spec_map_defaults(),
    {
        let mut s = self;
        s.default_point = RespawnPoint::new(map, x, y);
        s
    }

    /// Sets the default point of a map.
    pub fn add_map_default(&mut self, map: &str, x: u16, y: u16)
        ensures
            final(self).spec_global_default() == old(self).spec_global_default(),
            final(self).spec_map_defaults().dom() == old(self).spec_map_defaults().dom().insert(map@),
            final(self).spec_map_defaults()[map@].map_name@ == map@,
            final(self).spec_map_defaults()[map@].x == x,
            final(self).spec_map_defaults()[map@].y == y,
            forall|k: Seq<char>| k != map@ && old(self).spec_map_defaults().contains_key(k) ==>
                #[trigger] final(self).spec_map_defaults()[k] == old(self).spec_map_defaults()[k],
    {
        self.map_defaults.insert(owned(map), RespawnPoint::new(map, x, y));
    }

    /// Where a player on `player_map` standing at `player_pos` comes back.
    /// Both kinds of respawn use the map's default point when there is one
    /// and the player's own position otherwise.
    pub fn get_respawn_position(&self, player_map: &str, player_pos: (u16, u16), respawn_type: RespawnType) -> (r: (u16, u16, String))
        ensures
            (r.0, r.1, r.2@) == spec_respawn_position(self.spec_map_defaults(), player_map@, player_pos),
    {
        match respawn_type {
            RespawnType::Normal => {
                match self.map_defaults.get(player_map) {
                    Some(d) => (d.x, d.y, d.map_name.clone()),
                    None => (player_pos.0, player_pos.1, owned(player_map)),
                }
            },
            RespawnType::InstantCall => {
                match self.map_defaults.get(player_map) {
                    Some(d) => (d.x, d.y, d.map_name.clone()),
                    None => (player_pos.0, player_pos.1, owned(player_map)),
                }
            },
        }
    }

    /// The global default point.
    pub fn get_global_default(&self) -> (p: &RespawnPoint)
        ensures
            *p == self.spec_global_default(),
    {
        &self.default_point
    }

    /// The default point of a map, if it has one.
    pub fn get_map_default(&self, map_name: &str) -> (r: Option<&RespawnPoint>)
        ensures
            match r {
                Some(p) => self.spec_map_defaults().contains_key(map_name@) && *p == self.spec_map_defaults()[map_name@],
                None => !self.spec_map_defaults().contains_key(map_name@),
            },
    {
        self.map_defaults.get(map_name)
    }
}

impl Default for RespawnService {
    fn default() -> (s: Self)
        ensures
            s.spec_global_default().map_name@ == "prontera"@,
            s.spec_global_default().x == 157,
            s.spec_global_default().y == 183,
            s.spec_map_defaults() == Map::<Seq<char>, RespawnPoint>::empty(),
    {
        RespawnService::new()
    }
}

/// After setting a map's default point, a player dying on that map comes
/// back at exactly that point, whatever the kind of respawn.
pub proof fn lemma_respawn_uses_map_default(s: RespawnService, map: Seq<char>, x: u16, y: u16, pos: (u16, u16))
    requires
        s.spec_map_defaults().contains_key(map),
        s.spec_map_defaults()[map].map_name@ == map,
        s.spec_map_defaults()[map].x == x,
        s.spec_map_defaults()[map].y == y,
    ensures
        spec_respawn_position(s.spec_map_defaults(), map, pos) == (x, y, map),
{
}

} // verus!
