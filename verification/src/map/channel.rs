//! Channel names, entity ids, game events and the packets that show
//! entities to clients.

use vstd::prelude::*;
use std::collections::HashMap;
use crate::bytes::{push_u16_le, push_u32_le, spec_u16_le, spec_u32_le};
use crate::text::{concat, owned, starts_with_str};
use crate::strmap::StrMap;
use crate::clock::{uuid_text, uuid_to_string};

verus! {

/// The name of the channel of a map: "map:" followed by the map's name.
pub fn map_channel_name(map_name: &str) -> (s: String)
    ensures
        s@ == "map:"@ + map_name@,
{
    concat("map:", map_name)
}

/// How a chat line is addressed.
#[derive(Debug, Clone, Copy, PartialEq, Eq, Structural)]
pub enum ChatType {
    /// Chat heard by everyone on the same map.
    OnMap,
    Party,
    Whisper,
}

/// The 3-byte position encoding of the client protocol: a 9-bit `x`, a
/// 9-bit `y` and a 3-bit direction, packed from the low bit up as
/// `[x_lo, x_hi | y_lo << 1, y_hi | dir << 2]` (`y_lo` the low 7 bits of `y`,
/// `y_hi` the next 2); higher bits are dropped. The first byte is the low
/// byte of `x`, and the fields do not overlap, so every position below 512
/// and every one of the eight directions can be read back
/// (`lemma_pos3_decodes`): a packing where `y`'s upper bits share a byte
/// with the direction would make directions 4 to 7 and some rows
/// indistinguishable.
pub open spec fn spec_encode_pos3(x: u16, y: u16, dir: u8) -> Seq<u8> {
    seq![
        (x % 256) as u8,
        ((x / 256) % 2 + (y % 128) * 2) as u8,
        ((y / 128) % 4 + (dir % 8) * 4) as u8,
    ]
}

/// The position and direction that three encoded bytes stand for.
pub open spec fn spec_decode_pos3(b: Seq<u8>) -> (int, int, int) {
    (b[0] + (b[1] % 2) * 256, b[1] / 2 + (b[2] % 4) * 128, b[2] as int / 4)
}

/// A position on a map of up to 512 x 512 cells and one of the eight
/// directions are read back unchanged from their encoding; so two different
/// such positions never share an encoding.
pub proof fn lemma_pos3_decodes(x: u16, y: u16, dir: u8)
    requires
        x < 512,
        y < 512,
        dir < 8,
    ensures
        spec_decode_pos3(spec_encode_pos3(x, y, dir)) == (x as int, y as int, dir as int),
{
    let b = spec_encode_pos3(x, y, dir);
    assert(b[0] == x % 256);
    assert(b[1] == (x / 256) % 2 + (y % 128) * 2);
    assert(b[2] == (y / 128) % 4 + (dir % 8) * 4);
}

/// Encodes a position and a direction into three bytes.
pub fn encode_pos3(x: u16, y: u16, dir: u8) -> (r: [u8; 3])
    ensures
        r@ == spec_encode_pos3(x, y, dir),
{
    let r = [
        (x % 256) as u8,
        ((x / 256) % 2 + (y % 128) * 2) as u8,
        ((y / 128) % 4 + ((dir % 8) as u16) * 4) as u8,
    ];
    assert(r@ =~= spec_encode_pos3(x, y, dir));
    r
}

/// The 0x0078 "entity appears" packet (63 bytes).
pub open spec fn spec_entity_appear_packet(entity_id: u32, entity_type: u16, x: u16, y: u16, mob_type: u16, dir: u8) -> Seq<u8> {
    spec_u16_le(0x0078) + spec_u32_le(entity_id) + spec_u16_le(150) + spec_u16_le(0) + spec_u16_le(0)
        + spec_u32_le(0) + spec_u16_le(if entity_type == 6 { mob_type } else { 0 })
        + spec_u16_le(0) + spec_u16_le(0) + spec_u16_le(0) + spec_u32_le(0)
        + spec_u16_le(0) + spec_u16_le(0) + spec_u16_le(0) + spec_u16_le(0) + spec_u16_le(0) + spec_u16_le(0)
        + spec_u32_le(0) + spec_u32_le(0) + spec_u16_le(0) + spec_u16_le(0) + seq![0u8]
        + spec_u16_le(x) + spec_u16_le(y) + seq![dir] + spec_u16_le(x) + spec_u16_le(y) + seq![dir]
}

/// The "entity appears" packet is 63 bytes: the packet id, the entity id
/// and the speed 150 lead; the monster class (0 for other than monsters)
/// stands at bytes 16-17; the position and direction stand twice at the end
/// (x at 53 and 58, y at 55 and 60, the direction at 57 and 62); every other
/// byte is 0.
#[verifier::spinoff_prover]
#[verifier::rlimit(40)]
pub proof fn lemma_entity_appear_layout(entity_id: u32, entity_type: u16, x: u16, y: u16, mob_type: u16, dir: u8)
    ensures
        ({
            let p = spec_entity_appear_packet(entity_id, entity_type, x, y, mob_type, dir);
            let m = if entity_type == 6 { mob_type } else { 0 };
            &&& p.len() == 63
            &&& p.subrange(0, 2) == spec_u16_le(0x0078)
            &&& p.subrange(2, 6) == spec_u32_le(entity_id)
            &&& p.subrange(6, 8) == spec_u16_le(150)
            &&& p.subrange(16, 18) == spec_u16_le(m)
            &&& p.subrange(53, 55) == spec_u16_le(x) && p.subrange(58, 60) == spec_u16_le(x)
            &&& p.subrange(55, 57) == spec_u16_le(y) && p.subrange(60, 62) == spec_u16_le(y)
            &&& p[57] == dir && p[62] == dir
            &&& forall|i: int| (8 <= i < 16 || 18 <= i < 53) ==> #[trigger] p[i] == 0
        }),
{
    let p = spec_entity_appear_packet(entity_id, entity_type, x, y, mob_type, dir);
    let m = if entity_type == 6 { mob_type } else { 0 };
    let head = spec_u16_le(0x0078) + spec_u32_le(entity_id) + spec_u16_le(150);
    let zeros1: Seq<u8> = seq![0u8, 0u8, 0u8, 0u8, 0u8, 0u8, 0u8, 0u8];
    let zeros2: Seq<u8> = seq![0u8, 0u8, 0u8, 0u8, 0u8, 0u8, 0u8, 0u8, 0u8, 0u8, 0u8, 0u8, 0u8, 0u8, 0u8, 0u8, 0u8, 0u8, 0u8, 0u8, 0u8, 0u8, 0u8, 0u8, 0u8, 0u8, 0u8, 0u8, 0u8, 0u8, 0u8, 0u8, 0u8, 0u8, 0u8];
    let tail = spec_u16_le(x) + spec_u16_le(y) + seq![dir] + spec_u16_le(x) + spec_u16_le(y) + seq![dir];
    assert(p =~= head + zeros1 + spec_u16_le(m) + zeros2 + tail);
    let q = head + zeros1 + spec_u16_le(m) + zeros2 + tail;
    assert(q.subrange(0, 2) =~= spec_u16_le(0x0078));
    assert(q.subrange(2, 6) =~= spec_u32_le(entity_id));
    assert(q.subrange(6, 8) =~= spec_u16_le(150));
    assert(q.subrange(16, 18) =~= spec_u16_le(m));
    assert(q.subrange(53, 55) =~= spec_u16_le(x));
    assert(q.subrange(58, 60) =~= spec_u16_le(x));
    assert(q.subrange(55, 57) =~= spec_u16_le(y));
    assert(q.subrange(60, 62) =~= spec_u16_le(y));
}

/// The 0x007a "entity disappears" packet (7 bytes, reason 0).
pub open spec fn spec_entity_disappear_packet(entity_id: u32) -> Seq<u8> {
    spec_u16_le(0x007a) + spec_u32_le(entity_id) + seq![0u8]
}

/// The 0x0086 "entity moves" packet (16 bytes).
pub open spec fn spec_entity_move_packet(entity_id: u32, from_x: u16, from_y: u16, dest_x: u16, dest_y: u16) -> Seq<u8> {
    spec_u16_le(0x0086) + spec_u32_le(entity_id) + spec_encode_pos3(from_x, from_y, 0)
        + spec_encode_pos3(dest_x, dest_y, 0) + spec_u32_le(0)
}

/// Builds the packet that shows an entity (a player, or a mob when
/// `entity_type` is 6) standing at `(x, y)`.
pub fn build_entity_appear_packet(entity_id: u32, entity_type: u16, x: u16, y: u16, mob_type: u16, dir: u8) -> (pkt: Vec<u8>)
    ensures
        pkt@ == spec_entity_appear_packet(entity_id, entity_type, x, y, mob_type, dir),
        pkt@.len() == 63,
{
    let mut pkt: Vec<u8> = Vec::new();
    push_u16_le(&mut pkt, 0x0078);
    push_u32_le(&mut pkt, entity_id);
    push_u16_le(&mut pkt, 150);
    push_u16_le(&mut pkt, 0);
    push_u16_le(&mut pkt, 0);
    push_u32_le(&mut pkt, 0);
    let job: u16 = if entity_type == 6 { mob_type } else { 0 };
    push_u16_le(&mut pkt, job);
    push_u16_le(&mut pkt, 0);
    push_u16_le(&mut pkt, 0);
    push_u16_le(&mut pkt, 0);
    push_u32_le(&mut pkt, 0);
    push_u16_le(&mut pkt, 0);
    push_u16_le(&mut pkt, 0);
    push_u16_le(&mut pkt, 0);
    push_u16_le(&mut pkt, 0);
    push_u16_le(&mut pkt, 0);
    push_u16_le(&mut pkt, 0);
    push_u32_le(&mut pkt, 0);
    push_u32_le(&mut pkt, 0);
    push_u16_le(&mut pkt, 0);
    push_u16_le(&mut pkt, 0);
    pkt.push(0u8);
    push_u16_le(&mut pkt, x);
    push_u16_le(&mut pkt, y);
    pkt.push(dir);
    push_u16_le(&mut pkt, x);
    push_u16_le(&mut pkt, y);
    pkt.push(dir);
    assert(pkt@ =~= spec_entity_appear_packet(entity_id, entity_type, x, y, mob_type, dir));
    pkt
}

/// Builds the packet that removes an entity from view.
pub fn build_entity_disappear_packet(entity_id: u32) -> (pkt: Vec<u8>)
    ensures
        pkt@ == spec_entity_disappear_packet(entity_id),
        pkt@.len() == 7,
{
    let mut pkt: Vec<u8> = Vec::new();
    push_u16_le(&mut pkt, 0x007a);
    push_u32_le(&mut pkt, entity_id);
    pkt.push(0u8);
    assert(pkt@ =~= spec_entity_disappear_packet(entity_id));
    pkt
}

/// Builds the packet that moves an entity from one position to another.
pub fn build_entity_move_packet(entity_id: u32, from_x: u16, from_y: u16, dest_x: u16, dest_y: u16) -> (pkt: Vec<u8>)
    ensures
        pkt@ == spec_entity_move_packet(entity_id, from_x, from_y, dest_x, dest_y),
        pkt@.len() == 16,
{
    let mut pkt: Vec<u8> = Vec::new();
    push_u16_le(&mut pkt, 0x0086);
    push_u32_le(&mut pkt, entity_id);
    let from_xy = encode_pos3(from_x, from_y, 0);
    pkt.push(from_xy[0]);
    pkt.push(from_xy[1]);
    pkt.push(from_xy[2]);
    let dest_xy = encode_pos3(dest_x, dest_y, 0);
    pkt.push(dest_xy[0]);
    pkt.push(dest_xy[1]);
    pkt.push(dest_xy[2]);
    push_u32_le(&mut pkt, 0);
    assert(pkt@ =~= spec_entity_move_packet(entity_id, from_x, from_y, dest_x, dest_y));
    pkt
}

} // verus!

verus! {

broadcast use vstd::std_specs::hash::group_hash_axioms;

/// Hands out the small numeric ids that clients know entities by: the first
/// request for an entity allocates the next number, later ones repeat it.
pub struct EntityIds {
    ids: HashMap<u128, u32>,
    next: u32,
}

impl EntityIds {
    /// The ids handed out so far, by entity.
    pub closed spec fn assigned(&self) -> Map<u128, u32> {
        self.ids@
    }

    /// The number the next new entity receives.
    pub closed spec fn next_id(&self) -> u32 {
        self.next
    }

    /// Every id handed out is below the next one, none is 0, and no two entities share one.
    pub open spec fn well_formed(&self) -> bool {
        &&& self.next_id() >= 1
        &&& forall|k: u128| #[trigger] self.assigned().contains_key(k) ==> 1 <= self.assigned()[k] < self.next_id()
        &&& forall|a: u128, b: u128| #[trigger] self.assigned().contains_key(a) && #[trigger] self.assigned().contains_key(b)
            && a != b ==> self.assigned()[a] != self.assigned()[b]
    }

    /// An empty registry whose first id is 1.
    pub fn new() -> (r: Self)
        ensures
            r.assigned() == Map::<u128, u32>::empty(),
            r.next_id() == 1,
            r.well_formed(),
    {
        EntityIds { ids: HashMap::new(), next: 1 }
    }

    /// The id of `uuid`, allocating the next one on first use (the counter wraps).
    pub fn get_entity_id(&mut self, uuid: u128) -> (id: u32)
        ensures
            old(self).assigned().contains_key(uuid) ==> {
                &&& id == old(self).assigned()[uuid]
                &&& final(self).assigned() == old(self).assigned()
                &&& final(self).next_id() == old(self).next_id()
            },
            !old(self).assigned().contains_key(uuid) ==> {
                &&& id == old(self).next_id()
                &&& final(self).assigned() == old(self).assigned().insert(uuid, id)
                &&& final(self).next_id() == old(self).next_id().wrapping_add(1)
            },
            old(self).well_formed() && old(self).next_id() < u32::MAX ==> final(self).well_formed(),
    {
        match self.ids.get(&uuid) {
            Some(id) => *id,
            None => {
                let id = self.next;
                self.ids.insert(uuid, id);
                self.next = self.next.wrapping_add(1);
                proof {
                    if old(self).well_formed() && old(self).next_id() < u32::MAX {
                        assert forall|k: u128| #[trigger] self.assigned().contains_key(k) implies
                            1 <= self.assigned()[k] < self.next_id() by {
                            if k != uuid {
                                assert(old(self).assigned().contains_key(k));
                            }
                        }
                        assert forall|a: u128, b: u128| #[trigger] self.assigned().contains_key(a)
                            && #[trigger] self.assigned().contains_key(b) && a != b implies
                            self.assigned()[a] != self.assigned()[b] by {
                            if a != uuid {
                                assert(old(self).assigned().contains_key(a));
                            }
                            if b != uuid {
                                assert(old(self).assigned().contains_key(b));
                            }
                        }
                    }
                }
                id
            },
        }
    }

    /// Forgets the id of `uuid`.
    pub fn remove_entity_id(&mut self, uuid: u128)
        ensures
            final(self).assigned() == old(self).assigned().remove(uuid),
            final(self).next_id() == old(self).next_id(),
            old(self).well_formed() ==> final(self).well_formed(),
    {
        self.ids.remove(&uuid);
        proof {
            if old(self).well_formed() {
                assert forall|k: u128| #[trigger] self.assigned().contains_key(k) implies
                    1 <= self.assigned()[k] < self.next_id() by {
                    assert(old(self).assigned().contains_key(k));
                }
                assert forall|a: u128, b: u128| #[trigger] self.assigned().contains_key(a)
                    && #[trigger] self.assigned().contains_key(b) && a != b implies
                    self.assigned()[a] != self.assigned()[b] by {
                    assert(old(self).assigned().contains_key(a));
                    assert(old(self).assigned().contains_key(b));
                }
            }
        }
    }
}

/// Asking twice for the ids of two different entities gives two different ids,
/// as long as the counter has not wrapped.
pub proof fn lemma_entity_ids_distinct(ids: EntityIds, a: u128, b: u128)
    requires
        ids.well_formed(),
        ids.assigned().contains_key(a),
        ids.assigned().contains_key(b),
        a != b,
    ensures
        ids.assigned()[a] != ids.assigned()[b],
{
}

/// Something that happened in the world and may be shown to players.
#[derive(Debug, Clone)]
pub enum GameEvent {
    PlayerEnter { player_id: u128, name: String, x: u16, y: u16, job: u16, level: u16, hp: u32, max_hp: u32 },
    PlayerLeave { player_id: u128 },
    PlayerMove { player_id: u128, from_x: u16, from_y: u16, to_x: u16, to_y: u16 },
    PlayerAttack { attacker_id: u128, target_id: u128, damage: u32, is_crit: bool, killed: bool },
    PlayerUseSkill { caster_id: u128, skill_id: u32, target_id: Option<u128>, x: u16, y: u16 },
    PlayerChat { player_id: u128, message: String, chat_type: ChatType },
    PlayerDeath { player_id: u128 },
    PlayerDirectionChange { player_id: u128, direction: u16 },
    PlayerRevive { player_id: u128, x: u16, y: u16 },
    MobSpawn { mob_id: u128, mob_type: u32, x: u16, y: u16 },
    MobMove { mob_id: u128, to_x: u16, to_y: u16 },
    MobDeath { mob_id: u128, killer_id: u128 },
    ItemDrop { item_id: u32, x: u16, y: u16, amount: u16 },
    ItemPickup { player_id: u128, item_id: u32, amount: u16 },
    ItemDespawn { item_id: u32, x: u16, y: u16 },
    MobDamage { mob_id: u128, attacker_id: u128, damage: u32, is_crit: bool },
    MobHpUpdate { mob_id: u128, hp: u32, max_hp: u32 },
}

/// The entity whose id an event's packet carries, if the event has a packet.
pub open spec fn spec_packet_entity(e: GameEvent) -> Option<u128> {
    match e {
        GameEvent::PlayerEnter { player_id, .. } => Some(player_id),
        GameEvent::PlayerLeave { player_id } => Some(player_id),
        GameEvent::PlayerMove { player_id, .. } => Some(player_id),
        GameEvent::MobSpawn { mob_id, .. } => Some(mob_id),
        GameEvent::MobDeath { mob_id, .. } => Some(mob_id),
        GameEvent::MobMove { mob_id, .. } => Some(mob_id),
        _ => None,
    }
}

/// The packet of an event whose entity has client id `eid`.
pub open spec fn spec_event_packet(e: GameEvent, eid: u32) -> Seq<u8> {
    match e {
        GameEvent::PlayerEnter { x, y, .. } => spec_entity_appear_packet(eid, 0, x, y, 0, 0),
        GameEvent::PlayerLeave { .. } => spec_entity_disappear_packet(eid),
        GameEvent::PlayerMove { from_x, from_y, to_x, to_y, .. } =>
            spec_entity_move_packet(eid, from_x, from_y, to_x, to_y),
        GameEvent::MobSpawn { mob_type, x, y, .. } => spec_entity_appear_packet(eid, 6, x, y, mob_type as u16, 0),
        GameEvent::MobDeath { .. } => spec_entity_disappear_packet(eid),
        GameEvent::MobMove { to_x, to_y, .. } => spec_entity_move_packet(eid, to_x, to_y, to_x, to_y),
        _ => Seq::empty(),
    }
}

/// The player an event comes from, if any.
pub open spec fn spec_source_player_id(e: GameEvent) -> Option<u128> {
    match e {
        GameEvent::PlayerEnter { player_id, .. } => Some(player_id),
        GameEvent::PlayerLeave { player_id } => Some(player_id),
        GameEvent::PlayerMove { player_id, .. } => Some(player_id),
        GameEvent::PlayerAttack { attacker_id, .. } => Some(attacker_id),
        GameEvent::PlayerUseSkill { caster_id, .. } => Some(caster_id),
        GameEvent::PlayerChat { player_id, .. } => Some(player_id),
        GameEvent::PlayerDeath { player_id } => Some(player_id),
        GameEvent::PlayerDirectionChange { player_id, .. } => Some(player_id),
        GameEvent::PlayerRevive { player_id, .. } => Some(player_id),
        GameEvent::MobSpawn { .. } => None,
        GameEvent::MobMove { .. } => None,
        GameEvent::MobDeath { killer_id, .. } => Some(killer_id),
        GameEvent::ItemDrop { .. } => None,
        GameEvent::ItemPickup { player_id, .. } => Some(player_id),
        GameEvent::ItemDespawn { .. } => None,
        GameEvent::MobDamage { attacker_id, .. } => Some(attacker_id),
        GameEvent::MobHpUpdate { .. } => None,
    }
}

/// Where an event happens, if it has a place.
pub open spec fn spec_event_position(e: GameEvent) -> Option<(u16, u16)> {
    match e {
        GameEvent::PlayerEnter { x, y, .. } => Some((x, y)),
        GameEvent::PlayerMove { to_x, to_y, .. } => Some((to_x, to_y)),
        GameEvent::PlayerUseSkill { x, y, .. } => Some((x, y)),
        GameEvent::PlayerRevive { x, y, .. } => Some((x, y)),
        GameEvent::MobSpawn { x, y, .. } => Some((x, y)),
        GameEvent::MobMove { to_x, to_y, .. } => Some((to_x, to_y)),
        GameEvent::ItemDrop { x, y, .. } => Some((x, y)),
        GameEvent::ItemDespawn { x, y, .. } => Some((x, y)),
        _ => None,
    }
}

impl GameEvent {
    /// The client packet of the event: appear, disappear or move for player
    /// and mob events, nothing for the others. The entity's client id is
    /// taken from (and, on first use, allocated in) `ids`.
    pub fn to_packet_bytes(&self, ids: &mut EntityIds) -> (pkt: Vec<u8>)
        ensures
            match spec_packet_entity(*self) {
                Some(u) => {
                    &&& final(ids).assigned().contains_key(u)
                    &&& pkt@ == spec_event_packet(*self, final(ids).assigned()[u])
                    &&& old(ids).assigned().contains_key(u) ==> final(ids).assigned() == old(ids).assigned()
                        && final(ids).next_id() == old(ids).next_id()
                    &&& !old(ids).assigned().contains_key(u) ==> {
                        &&& final(ids).assigned() == old(ids).assigned().insert(u, old(ids).next_id())
                        &&& final(ids).next_id() == old(ids).next_id().wrapping_add(1)
                    }
                },
                None => pkt@ == Seq::<u8>::empty() && final(ids).assigned() == old(ids).assigned()
                    && final(ids).next_id() == old(ids).next_id(),
            },
    {
        match self {
            GameEvent::PlayerEnter { player_id, x, y, .. } => {
                let entity_id = ids.get_entity_id(*player_id);
                build_entity_appear_packet(entity_id, 0, *x, *y, 0, 0)
            },
            GameEvent::PlayerLeave { player_id } => {
                let entity_id = ids.get_entity_id(*player_id);
                build_entity_disappear_packet(entity_id)
            },
            GameEvent::PlayerMove { player_id, from_x, from_y, to_x, to_y } => {
                let entity_id = ids.get_entity_id(*player_id);
                build_entity_move_packet(entity_id, *from_x, *from_y, *to_x, *to_y)
            },
            GameEvent::MobSpawn { mob_id, mob_type, x, y } => {
                let entity_id = ids.get_entity_id(*mob_id);
                build_entity_appear_packet(entity_id, 6, *x, *y, *mob_type as u16, 0)
            },
            GameEvent::MobDeath { mob_id, .. } => {
                let entity_id = ids.get_entity_id(*mob_id);
                build_entity_disappear_packet(entity_id)
            },
            GameEvent::MobMove { mob_id, to_x, to_y } => {
                let entity_id = ids.get_entity_id(*mob_id);
                build_entity_move_packet(entity_id, *to_x, *to_y, *to_x, *to_y)
            },
            _ => Vec::new(),
        }
    }

    /// The player the event comes from, if any.
    pub fn source_player_id(&self) -> (r: Option<u128>)
        ensures
            r == spec_source_player_id(*self),
    {
        match self {
            GameEvent::PlayerEnter { player_id, .. } => Some(*player_id),
            GameEvent::PlayerLeave { player_id } => Some(*player_id),
            GameEvent::PlayerMove { player_id, .. } => Some(*player_id),
            GameEvent::PlayerAttack { attacker_id, .. } => Some(*attacker_id),
            GameEvent::PlayerUseSkill { caster_id, .. } => Some(*caster_id),
            GameEvent::PlayerChat { player_id, .. } => Some(*player_id),
            GameEvent::PlayerDeath { player_id } => Some(*player_id),
            GameEvent::PlayerDirectionChange { player_id, .. } => Some(*player_id),
            GameEvent::PlayerRevive { player_id, .. } => Some(*player_id),
            GameEvent::MobSpawn { .. } => None,
            GameEvent::MobMove { .. } => None,
            GameEvent::MobDeath { killer_id, .. } => Some(*killer_id),
            GameEvent::ItemDrop { .. } => None,
            GameEvent::ItemPickup { player_id, .. } => Some(*player_id),
            GameEvent::ItemDespawn { .. } => None,
            GameEvent::MobDamage { attacker_id, .. } => Some(*attacker_id),
            GameEvent::MobHpUpdate { .. } => None,
        }
    }

    /// Where the event happens, if it has a place.
    pub fn position(&self) -> (r: Option<(u16, u16)>)
        ensures
            r == spec_event_position(*self),
    {
        match self {
            GameEvent::PlayerEnter { x, y, .. } => Some((*x, *y)),
            GameEvent::PlayerMove { to_x, to_y, .. } => Some((*to_x, *to_y)),
            GameEvent::PlayerUseSkill { x, y, .. } => Some((*x, *y)),
            GameEvent::PlayerRevive { x, y, .. } => Some((*x, *y)),
            GameEvent::MobSpawn { x, y, .. } => Some((*x, *y)),
            GameEvent::MobMove { to_x, to_y, .. } => Some((*to_x, *to_y)),
            GameEvent::ItemDrop { x, y, .. } => Some((*x, *y)),
            GameEvent::ItemDespawn { x, y, .. } => Some((*x, *y)),
            _ => None,
        }
    }
}

} // verus!

verus! {

/// The name of a party's channel: "party:" followed by the party's UUID.
pub fn party_channel_name(party_id: u128) -> (s: String)
    ensures
        s@ == "party:"@ + uuid_text(party_id),
{
    let id_str = uuid_to_string(party_id);
    concat("party:", id_str.as_str())
}

/// The name of a guild's channel: "guild:" followed by the guild's UUID.
pub fn guild_channel_name(guild_id: u128) -> (s: String)
    ensures
        s@ == "guild:"@ + uuid_text(guild_id),
{
    let id_str = uuid_to_string(guild_id);
    concat("guild:", id_str.as_str())
}

} // verus!

verus! {

#[verifier::external_type_specification]
#[verifier::external_body]
#[verifier::reject_recursive_types(T)]
pub struct ExUnboundedSender<T>(tokio::sync::mpsc::UnboundedSender<T>);

/// How far, in cells on each axis, a player sees events on a map channel.
pub const VISION_RADIUS: u16 = 14;

/// Calls `tokio::sync::mpsc::UnboundedSender::send` and reports whether it
/// succeeded. It fails once the receiving side is gone, which depends on
/// another task; nothing is stated of the result.
#[verifier::external_body]
fn send_packet(sender: &tokio::sync::mpsc::UnboundedSender<Vec<u8>>, packet: Vec<u8>) -> (ok: bool) {
    sender.send(packet).is_ok()
}

/// A player listening on a channel, with where they stand.
pub struct Subscriber {
    pub player_id: u128,
    pub sender: tokio::sync::mpsc::UnboundedSender<Vec<u8>>,
    pub pos_x: u16,
    pub pos_y: u16,
}

/// A named channel and its listeners, by player id.
pub struct Channel {
    pub name: String,
    pub subscribers: HashMap<u128, Subscriber>,
}

/// The channel names that skip vision filtering: party channels.
pub open spec fn spec_is_party_channel(name: Seq<char>) -> bool {
    "party:"@.len() <= name.len() && name.subrange(0, "party:"@.len() as int) == "party:"@
}

/// Whether a listener at `pos` on channel `name` is sent `event`: never the
/// player the event comes from; on other than party channels, only within
/// vision of where the event happens (events with no place reach all).
pub open spec fn spec_receives(name: Seq<char>, event: GameEvent, player_id: u128, pos: (u16, u16)) -> bool {
    &&& spec_source_player_id(event) != Some(player_id)
    &&& (spec_is_party_channel(name) || match spec_event_position(event) {
        Some((ex, ey)) => (if pos.0 >= ex { pos.0 - ex } else { ex - pos.0 }) <= VISION_RADIUS
            && (if pos.1 >= ey { pos.1 - ey } else { ey - pos.1 }) <= VISION_RADIUS,
        None => true,
    })
}

/// An event never reaches the player it comes from, and on a party
/// channel it reaches every other listener, wherever they stand.
pub proof fn lemma_source_excluded_party_unfiltered(name: Seq<char>, event: GameEvent, player_id: u128, pos: (u16, u16))
    ensures
        spec_source_player_id(event) == Some(player_id) ==> !spec_receives(name, event, player_id, pos),
        spec_is_party_channel(name) && spec_source_player_id(event) != Some(player_id) ==> spec_receives(name, event, player_id, pos),
{
}

/// Whether `pos` lies within the vision radius of `(x, y)` on both axes.
pub open spec fn spec_in_view(pos: (u16, u16), x: u16, y: u16) -> bool {
    -(VISION_RADIUS as int) <= pos.0 - x <= VISION_RADIUS && -(VISION_RADIUS as int) <= pos.1 - y <= VISION_RADIUS
}

/// On a channel other than a party's, an event that happens at a place (a
/// player entering, moving, using a skill or reviving; a monster appearing or
/// moving; an item dropped or vanishing) reaches only listeners within the
/// vision radius of that place.
pub proof fn lemma_placed_events_seen_nearby(name: Seq<char>, event: GameEvent, id: u128, pos: (u16, u16))
    requires
        !spec_is_party_channel(name),
        spec_receives(name, event, id, pos),
    ensures
        event matches GameEvent::PlayerEnter { x, y, .. } ==> spec_in_view(pos, x, y),
        event matches GameEvent::PlayerMove { to_x, to_y, .. } ==> spec_in_view(pos, to_x, to_y),
        event matches GameEvent::PlayerUseSkill { x, y, .. } ==> spec_in_view(pos, x, y),
        event matches GameEvent::PlayerRevive { x, y, .. } ==> spec_in_view(pos, x, y),
        event matches GameEvent::MobSpawn { x, y, .. } ==> spec_in_view(pos, x, y),
        event matches GameEvent::MobMove { to_x, to_y, .. } ==> spec_in_view(pos, to_x, to_y),
        event matches GameEvent::ItemDrop { x, y, .. } ==> spec_in_view(pos, x, y),
        event matches GameEvent::ItemDespawn { x, y, .. } ==> spec_in_view(pos, x, y),
{
}

/// The channels players listen on.
pub struct ChannelBus {
    channels: StrMap<Channel>,
}

impl ChannelBus {
    /// For each channel, where each of its listeners stands.
    pub closed spec fn spec_channels(&self) -> Map<Seq<char>, Map<u128, (u16, u16)>> {
        Map::new(
            |k: Seq<char>| self.channels@.contains_key(k),
            |k: Seq<char>| self.channels@[k].subscribers@.map_values(|s: Subscriber| (s.pos_x, s.pos_y)),
        )
    }

    /// The listeners of channel `name` (none when it does not exist).
    pub open spec fn spec_listeners(&self, name: Seq<char>) -> Map<u128, (u16, u16)> {
        if self.spec_channels().contains_key(name) { self.spec_channels()[name] } else { Map::empty() }
    }

    pub fn new() -> (b: Self)
        ensures
            b.spec_channels() == Map::<Seq<char>, Map<u128, (u16, u16)>>::empty(),
    {
        let b = ChannelBus { channels: StrMap::new() };
        assert(b.spec_channels() =~= Map::<Seq<char>, Map<u128, (u16, u16)>>::empty());
        b
    }

    /// Makes a player listen on a channel (created when missing) at `(x, y)`,
    /// replacing an earlier subscription of theirs to it.
    pub fn subscribe(&mut self, channel_name: &str, player_id: u128, sender: tokio::sync::mpsc::UnboundedSender<Vec<u8>>, x: u16, y: u16)
        ensures
            final(self).spec_channels() == old(self).spec_channels().insert(channel_name@,
                old(self).spec_listeners(channel_name@).insert(player_id, (x, y))),
    {
        let mut channel = match self.channels.remove(channel_name) {
            Some(c) => c,
            None => Channel { name: owned(channel_name), subscribers: HashMap::new() },
        };
        channel.subscribers.insert(player_id, Subscriber { player_id, sender, pos_x: x, pos_y: y });
        let ghost subs = channel.subscribers@;
        self.channels.insert(owned(channel_name), channel);
        proof {
            let old_l = old(self).spec_listeners(channel_name@);
            assert(subs.map_values(|s: Subscriber| (s.pos_x, s.pos_y)) =~= old_l.insert(player_id, (x, y)));
            assert(self.spec_channels() =~= old(self).spec_channels().insert(channel_name@, old_l.insert(player_id, (x, y))));
        }
    }

    /// Stops a player listening on a channel.
    pub fn unsubscribe(&mut self, channel_name: &str, player_id: u128)
        ensures
            final(self).spec_channels() == (if old(self).spec_channels().contains_key(channel_name@) {
                old(self).spec_channels().insert(channel_name@, old(self).spec_channels()[channel_name@].remove(player_id))
            } else {
                old(self).spec_channels()
            }),
    {
        match self.channels.remove(channel_name) {
            Some(c) => {
                let mut channel = c;
                channel.subscribers.remove(&player_id);
                let ghost subs = channel.subscribers@;
                self.channels.insert(owned(channel_name), channel);
                proof {
                    let old_l = old(self).spec_listeners(channel_name@);
                    assert(subs.map_values(|s: Subscriber| (s.pos_x, s.pos_y)) =~= old_l.remove(player_id));
                    assert(self.spec_channels() =~= old(self).spec_channels().insert(channel_name@, old_l.remove(player_id)));
                }
            },
            None => {
                proof {
                    assert(self.spec_channels() =~= old(self).spec_channels());
                }
            },
        }
    }

    /// Records where a listener of a channel now stands; nothing changes
    /// when the channel or the listener is missing.
    pub fn update_position(&mut self, channel_name: &str, player_id: u128, x: u16, y: u16)
        ensures
            final(self).spec_channels() == (if old(self).spec_listeners(channel_name@).contains_key(player_id) {
                old(self).spec_channels().insert(channel_name@, old(self).spec_channels()[channel_name@].insert(player_id, (x, y)))
            } else {
                old(self).spec_channels()
            }),
    {
        match self.channels.remove(channel_name) {
            Some(c) => {
                let mut channel = c;
                match channel.subscribers.remove(&player_id) {
                    Some(s) => {
                        let mut sub = s;
                        sub.pos_x = x;
                        sub.pos_y = y;
                        channel.subscribers.insert(player_id, sub);
                    },
                    None => {},
                }
                let ghost subs = channel.subscribers@;
                self.channels.insert(owned(channel_name), channel);
                proof {
                    let old_l = old(self).spec_listeners(channel_name@);
                    if old_l.contains_key(player_id) {
                        assert(subs.map_values(|s: Subscriber| (s.pos_x, s.pos_y)) =~= old_l.insert(player_id, (x, y)));
                        assert(self.spec_channels() =~= old(self).spec_channels().insert(channel_name@, old_l.insert(player_id, (x, y))));
                    } else {
                        assert(subs.map_values(|s: Subscriber| (s.pos_x, s.pos_y)) =~= old_l);
                        assert(self.spec_channels() =~= old(self).spec_channels());
                    }
                }
            },
            None => {
                proof {
                    assert(self.spec_channels() =~= old(self).spec_channels());
                }
            },
        }
    }

    /// The listeners of a channel that `event` is sent to (see `spec_receives`).
    pub fn recipients(&self, channel_name: &str, event: &GameEvent) -> (r: Vec<u128>)
        ensures
            forall|id: u128| #[trigger] r@.contains(id) <==> self.spec_listeners(channel_name@).contains_key(id)
                && spec_receives(channel_name@, *event, id, self.spec_listeners(channel_name@)[id]),
    {
        let mut r: Vec<u128> = Vec::new();
        let channel = match self.channels.get(channel_name) {
            Some(c) => c,
            None => return r,
        };
        let is_party = starts_with_str(channel_name, "party:");
        let event_pos = event.position();
        let source = event.source_player_id();
        let ghost listeners = self.spec_listeners(channel_name@);
        assert(listeners =~= channel.subscribers@.map_values(|s: Subscriber| (s.pos_x, s.pos_y)));
        for k in it: channel.subscribers.keys()
            invariant
                listeners =~= channel.subscribers@.map_values(|s: Subscriber| (s.pos_x, s.pos_y)),
                is_party == spec_is_party_channel(channel_name@),
                event_pos == spec_event_position(*event),
                source == spec_source_player_id(*event),
                forall|j: int| 0 <= j < r@.len() ==> channel.subscribers@.contains_key(#[trigger] r@[j])
                    && spec_receives(channel_name@, *event, r@[j], listeners[r@[j]]),
                forall|k2: u128| #[trigger] channel.subscribers@.contains_key(k2) && spec_receives(channel_name@, *event, k2, listeners[k2]) ==>
                    r@.contains(k2) || exists|j: int| it.index() <= j < it.seq().len() && *it.seq()[j] == k2,
                forall|k2: u128| #[trigger] channel.subscribers@.contains_key(k2) ==> exists|j: int| 0 <= j < it.seq().len() && *it.seq()[j] == k2,
        {
            let ghost before = r@;
            match channel.subscribers.get(k) {
                Some(sub) => {
                    let not_self = match source {
                        Some(s) => s != *k,
                        None => true,
                    };
                    let in_view = if is_party {
                        true
                    } else {
                        match event_pos {
                            Some((ex, ey)) => {
                                let dx: u16 = if sub.pos_x >= ex { sub.pos_x - ex } else { ex - sub.pos_x };
                                let dy: u16 = if sub.pos_y >= ey { sub.pos_y - ey } else { ey - sub.pos_y };
                                dx <= VISION_RADIUS && dy <= VISION_RADIUS
                            },
                            None => true,
                        }
                    };
                    if not_self && in_view {
                        r.push(*k);
                    }
                },
                None => {},
            }
            proof {
                assert forall|k2: u128| #[trigger] channel.subscribers@.contains_key(k2) && spec_receives(channel_name@, *event, k2, listeners[k2]) implies
                    r@.contains(k2) || exists|j: int| it.index() + 1 <= j < it.seq().len() && *it.seq()[j] == k2 by {
                    if before.contains(k2) {
                        let j = choose|j: int| 0 <= j < before.len() && before[j] == k2;
                        assert(r@[j] == k2);
                    } else if *k == k2 {
                        assert(r@[r@.len() - 1] == k2);
                    }
                }
            }
        }
        proof {
            assert forall|id: u128| #[trigger] r@.contains(id) implies listeners.contains_key(id)
                && spec_receives(channel_name@, *event, id, listeners[id]) by {
                let j = choose|j: int| 0 <= j < r@.len() && r@[j] == id;
            }
        }
        r
    }

    /// Sends `packet` to each listener of a channel that `event` reaches
    /// (see `recipients`); a listener whose receiving side is gone is skipped.
    pub fn publish(&self, channel_name: &str, event: &GameEvent, packet: Vec<u8>) {
        let ids = self.recipients(channel_name, event);
        match self.channels.get(channel_name) {
            Some(channel) => {
                let mut i: usize = 0;
                while i < ids.len()
                    decreases ids@.len() - i,
                {
                    match channel.subscribers.get(&ids[i]) {
                        Some(sub) => {
                            let _ = send_packet(&sub.sender, packet.clone());
                        },
                        None => {},
                    }
                    i = i + 1;
                }
            },
            None => {},
        }
    }

    /// The channel names, in the order the channels were made.
    pub closed spec fn spec_channel_order(&self) -> Seq<Seq<char>> {
        self.channels.keys()
    }

    /// The channels themselves, by name.
    pub closed spec fn spec_channel_map(&self) -> Map<Seq<char>, Channel> {
        self.channels@
    }

    /// The listener entry of `player_id` on the earliest made channel they
    /// listen on; `None` when they listen on none.
    pub fn subscriber_for(&self, player_id: u128) -> (r: Option<&Subscriber>)
        ensures
            match r {
                Some(s) => exists|i: int| 0 <= i < self.spec_channel_order().len()
                    && #[trigger] self.spec_channel_map()[self.spec_channel_order()[i]].subscribers@.contains_key(player_id)
                    && *s == self.spec_channel_map()[self.spec_channel_order()[i]].subscribers@[player_id]
                    && forall|j: int| 0 <= j < i ==> !(#[trigger] self.spec_channel_map()[self.spec_channel_order()[j]]).subscribers@.contains_key(player_id),
                None => forall|i: int| 0 <= i < self.spec_channel_order().len()
                    ==> !(#[trigger] self.spec_channel_map()[self.spec_channel_order()[i]]).subscribers@.contains_key(player_id),
            },
            forall|k: Seq<char>| #[trigger] self.spec_channel_map().contains_key(k) <==> self.spec_channel_order().contains(k),
            self.spec_channel_order().no_duplicates(),
    {
        let channels = self.channels.value_list();
        let mut i: usize = 0;
        while i < channels.len()
            invariant
                i <= channels@.len(),
                channels@.len() == self.spec_channel_order().len(),
                forall|k: Seq<char>| #[trigger] self.spec_channel_map().contains_key(k) <==> self.spec_channel_order().contains(k),
                self.spec_channel_order().no_duplicates(),
                forall|j: int| 0 <= j < channels@.len() ==> *#[trigger] channels@[j] == self.spec_channel_map()[self.spec_channel_order()[j]],
                forall|j: int| 0 <= j < i ==> !(#[trigger] self.spec_channel_map()[self.spec_channel_order()[j]]).subscribers@.contains_key(player_id),
            decreases channels@.len() - i,
        {
            let channel: &Channel = channels[i];
            assert(*channel == self.spec_channel_map()[self.spec_channel_order()[i as int]]);
            match channel.subscribers.get(&player_id) {
                Some(sub) => {
                    return Some(sub);
                },
                None => {},
            }
            i = i + 1;
        }
        None
    }

    /// Sends `packet` to the listener `subscriber_for` finds for the player;
    /// false when they listen on no channel (or the send failed).
    pub fn send_to_player(&self, player_id: u128, packet: Vec<u8>) -> (ok: bool)
        ensures
            ok ==> exists|k: Seq<char>| #[trigger] self.spec_channels().contains_key(k) && self.spec_channels()[k].contains_key(player_id),
    {
        match self.subscriber_for(player_id) {
            Some(sub) => {
                proof {
                    let i = choose|i: int| 0 <= i < self.spec_channel_order().len()
                        && #[trigger] self.spec_channel_map()[self.spec_channel_order()[i]].subscribers@.contains_key(player_id)
                        && *sub == self.spec_channel_map()[self.spec_channel_order()[i]].subscribers@[player_id]
                        && forall|j: int| 0 <= j < i ==> !(#[trigger] self.spec_channel_map()[self.spec_channel_order()[j]]).subscribers@.contains_key(player_id);
                    let k = self.spec_channel_order()[i];
                    assert(self.spec_channel_order().contains(k));
                    assert(self.spec_channels().contains_key(k));
                    assert(self.spec_channels()[k].contains_key(player_id));
                }
                send_packet(&sub.sender, packet)
            },
            None => false,
        }
    }

    /// How many players listen on a channel (0 when it does not exist).
    pub fn subscriber_count(&self, channel_name: &str) -> (n: usize)
        ensures
            n == self.spec_listeners(channel_name@).len(),
    {
        match self.channels.get(channel_name) {
            Some(c) => {
                proof {
                    assert(self.spec_listeners(channel_name@).dom() =~= c.subscribers@.dom());
                }
                c.subscribers.len()
            },
            None => 0,
        }
    }
}

impl Default for ChannelBus {
    fn default() -> (b: Self)
        ensures
            b.spec_channels() == Map::<Seq<char>, Map<u128, (u16, u16)>>::empty(),
    {
        ChannelBus::new()
    }
}

} // verus!
