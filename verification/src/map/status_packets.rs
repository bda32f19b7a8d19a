//! The packets that answer a stat raise and a skill level-up.

use vstd::prelude::*;
use crate::bytes::{push_u16_le, spec_u16_le};
use crate::map::player::Player;

verus! {

/// The packet id of the answer to a stat raise.
pub const ZC_STATUS_CHANGE_ACK: u16 = 0x00BC;

/// The packet id of a skill's new level.
pub const ZC_SKILLINFO_UPDATE: u16 = 0x010E;

/// The value a stat answer reports: the stat with that status id (13 to 18
/// are STR, AGI, VIT, INT, DEX, LUK), 0 for any other id.
pub open spec fn spec_status_value(status_id: u16, p: Player) -> u16 {
    if status_id == 13 { p.attrs.str }
    else if status_id == 14 { p.attrs.agi }
    else if status_id == 15 { p.attrs.vit }
    else if status_id == 16 { p.attrs.int_ }
    else if status_id == 17 { p.attrs.dex }
    else if status_id == 18 { p.attrs.luk }
    else { 0 }
}

/// The answer to a stat raise: length (10), packet id, status id, the
/// stat's value and the status points left, each a little-endian 16-bit number.
pub open spec fn spec_status_change_ack(status_id: u16, p: Player) -> Seq<u8> {
    spec_u16_le(10) + spec_u16_le(ZC_STATUS_CHANGE_ACK) + spec_u16_le(status_id)
        + spec_u16_le(spec_status_value(status_id, p)) + spec_u16_le(p.level.status_point)
}

/// Builds the answer to a stat raise for `player`.
pub fn build_status_change_ack(status_id: u16, player: &Player) -> (pkt: Vec<u8>)
    ensures
        pkt@ == spec_status_change_ack(status_id, *player),
{
    let value: u16 = match status_id {
        13 => player.str(),
        14 => player.agi(),
        15 => player.vit(),
        16 => player.int_(),
        17 => player.dex(),
        18 => player.luk(),
        _ => 0,
    };
    let mut pkt: Vec<u8> = Vec::new();
    push_u16_le(&mut pkt, 10);
    push_u16_le(&mut pkt, ZC_STATUS_CHANGE_ACK);
    push_u16_le(&mut pkt, status_id);
    push_u16_le(&mut pkt, value);
    push_u16_le(&mut pkt, player.status_point());
    pkt
}

/// A skill's new level: length (8), packet id, skill id and level, each a
/// little-endian 16-bit number.
pub open spec fn spec_skill_info_update(skill_id: u16, level: u8) -> Seq<u8> {
    spec_u16_le(8) + spec_u16_le(ZC_SKILLINFO_UPDATE) + spec_u16_le(skill_id) + spec_u16_le(level as u16)
}

/// Builds the packet that reports a skill's new level.
pub fn build_skill_info_update(skill_id: u16, level: u8) -> (pkt: Vec<u8>)
    ensures
        pkt@ == spec_skill_info_update(skill_id, level),
{
    let mut pkt: Vec<u8> = Vec::new();
    push_u16_le(&mut pkt, 8);
    push_u16_le(&mut pkt, ZC_SKILLINFO_UPDATE);
    push_u16_le(&mut pkt, skill_id);
    push_u16_le(&mut pkt, level as u16);
    pkt
}

} // verus!
