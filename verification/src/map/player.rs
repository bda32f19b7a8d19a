//! A player on a map: combat state, position, levels, attributes, money
//! and save point, and what happens on damage, death and respawn.

use vstd::prelude::*;
use crate::text::owned;

verus! {

/// Whether a player is alive.
#[derive(Debug, Clone, Copy, PartialEq, Eq, Structural)]
pub enum PlayerState {
    Alive,
    Dead,
}

/// HP, SP, life, combat and sitting state, walking speed and facing (0..=7).
#[derive(Debug, Clone, Copy, PartialEq, Eq, Structural)]
pub struct CombatStats {
    pub hp: u32,
    pub max_hp: u32,
    pub sp: u32,
    pub max_sp: u32,
    pub state: PlayerState,
    pub in_combat: bool,
    pub is_sitting: bool,
    pub walk_speed: u16,
    pub direction: u16,
}

/// Where a player stands.
#[derive(Debug, Clone, Copy, PartialEq, Eq, Structural)]
pub struct Position {
    pub x: u16,
    pub y: u16,
}

/// Levels, experience, and unspent status and skill points.
#[derive(Debug, Clone, Copy, PartialEq, Eq, Structural)]
pub struct LevelStats {
    pub base_level: u16,
    pub job_level: u16,
    pub base_exp: u64,
    pub job_exp: u64,
    pub status_point: u16,
    pub skill_point: u16,
}

/// The six attributes.
#[derive(Debug, Clone, Copy, PartialEq, Eq, Structural)]
pub struct Attributes {
    pub str: u16,
    pub agi: u16,
    pub vit: u16,
    /// Intelligence.
    pub int_: u16,
    pub dex: u16,
    pub luk: u16,
}

/// Money, weight, job, open shop and GM group.
#[derive(Debug, Clone, Copy, PartialEq, Eq, Structural)]
pub struct Economy {
    pub zeny: u32,
    pub current_weight: u32,
    pub max_weight: u32,
    pub job: u16,
    pub shop_id: Option<u128>,
    pub group_id: i32,
}

/// Where a player returns to.
#[derive(Debug)]
pub struct SavePoint {
    pub map: String,
    pub x: u16,
    pub y: u16,
}

/// A player.
#[derive(Debug)]
pub struct Player {
    pub id: u128,
    pub char_id: u32,
    pub account_id: u32,
    pub name: String,
    pub map_name: String,
    pub combat: CombatStats,
    pub pos: Position,
    pub level: LevelStats,
    pub attrs: Attributes,
    pub economy: Economy,
    pub save_point: SavePoint,
    pub party_id: Option<u128>,
    pub guild_id: Option<u128>,
}

/// Experience after the death penalty: one percent (rounded down) is lost.
pub open spec fn spec_after_penalty(exp: u64) -> u64 {
    (exp - exp / 100) as u64
}

/// What a player saves.
#[derive(Debug)]
pub struct PlayerSaveData {
    pub char_id: u32,
    pub last_map: String,
    pub last_x: i32,
    pub last_y: i32,
    pub hp: u32,
    pub max_hp: u32,
    pub sp: u32,
    pub max_sp: u32,
    pub base_exp: u64,
    pub job_exp: u64,
    pub base_level: u16,
    pub job_level: u16,
    pub class: u16,
    pub zeny: u32,
    pub str: u16,
    pub agi: u16,
    pub vit: u16,
    pub int_: u16,
    pub dex: u16,
    pub luk: u16,
    pub status_point: u16,
    pub skill_point: u16,
}

/// The most zeny a player may hold.
pub const MAX_ZENY: u32 = 1_000_000_000;

impl Player {
    pub fn hp(&self) -> (v: u32) ensures v == self.combat.hp, { self.combat.hp }
    pub fn max_hp(&self) -> (v: u32) ensures v == self.combat.max_hp, { self.combat.max_hp }
    pub fn sp(&self) -> (v: u32) ensures v == self.combat.sp, { self.combat.sp }
    pub fn max_sp(&self) -> (v: u32) ensures v == self.combat.max_sp, { self.combat.max_sp }
    pub fn walk_speed(&self) -> (v: u16) ensures v == self.combat.walk_speed, { self.combat.walk_speed }
    pub fn pos_x(&self) -> (v: u16) ensures v == self.pos.x, { self.pos.x }
    pub fn pos_y(&self) -> (v: u16) ensures v == self.pos.y, { self.pos.y }
    pub fn base_level(&self) -> (v: u16) ensures v == self.level.base_level, { self.level.base_level }
    pub fn job_level(&self) -> (v: u16) ensures v == self.level.job_level, { self.level.job_level }
    pub fn base_exp(&self) -> (v: u64) ensures v == self.level.base_exp, { self.level.base_exp }
    pub fn job_exp(&self) -> (v: u64) ensures v == self.level.job_exp, { self.level.job_exp }
    pub fn zeny(&self) -> (v: u32) ensures v == self.economy.zeny, { self.economy.zeny }
    pub fn job(&self) -> (v: u16) ensures v == self.economy.job, { self.economy.job }

    /// The save point's coordinates.
    pub fn get_save_point(&self) -> (p: (u16, u16))
        ensures
            p == (self.save_point.x, self.save_point.y),
    {
        (self.save_point.x, self.save_point.y)
    }

    /// The save point's map.
    pub fn get_save_map(&self) -> (m: String)
        ensures
            m@ == self.save_point.map@,
    {
        self.save_point.map.clone()
    }

    /// Saves where the player stands.
    pub fn set_save_point(&mut self)
        ensures
            final(self).save_point.map@ == old(self).map_name@,
            final(self).save_point.x == old(self).pos.x && final(self).save_point.y == old(self).pos.y,
            *final(self) == (Player { save_point: final(self).save_point, ..*old(self) }),
    {
        self.save_point = SavePoint { map: self.map_name.clone(), x: self.pos.x, y: self.pos.y };
    }

    /// Saves a given place.
    pub fn set_save_point_at(&mut self, map: &str, x: u16, y: u16)
        ensures
            final(self).save_point.map@ == map@ && final(self).save_point.x == x && final(self).save_point.y == y,
            *final(self) == (Player { save_point: final(self).save_point, ..*old(self) }),
    {
        self.save_point = SavePoint { map: owned(map), x, y };
    }

    pub fn move_to(&mut self, x: u16, y: u16)
        ensures
            *final(self) == (Player { pos: Position { x, y }, ..*old(self) }),
    {
        self.pos = Position { x, y };
    }

    pub fn get_position(&self) -> (p: (u16, u16))
        ensures
            p == (self.pos.x, self.pos.y),
    {
        (self.pos.x, self.pos.y)
    }

    /// One percent of each kind of experience is lost.
    fn apply_death_penalty(&mut self)
        ensures
            *final(self) == (Player { level: LevelStats {
                base_exp: spec_after_penalty(old(self).level.base_exp),
                job_exp: spec_after_penalty(old(self).level.job_exp),
                ..old(self).level
            }, ..*old(self) }),
    {
        self.level.base_exp = self.level.base_exp - self.level.base_exp / 100;
        self.level.job_exp = self.level.job_exp - self.level.job_exp / 100;
    }

    /// Takes `damage`; at or below zero HP the player dies and loses one
    /// percent of each kind of experience. Returns whether they died.
    pub fn take_damage(&mut self, damage: u32) -> (died: bool)
        ensures
            died == (old(self).combat.hp <= damage),
            died ==> *final(self) == (Player {
                combat: CombatStats { hp: 0, state: PlayerState::Dead, ..old(self).combat },
                level: LevelStats {
                    base_exp: spec_after_penalty(old(self).level.base_exp),
                    job_exp: spec_after_penalty(old(self).level.job_exp),
                    ..old(self).level
                },
                ..*old(self)
            }),
            !died ==> *final(self) == (Player {
                combat: CombatStats { hp: (old(self).combat.hp - damage) as u32, ..old(self).combat },
                ..*old(self)
            }),
    {
        if self.combat.hp <= damage {
            self.combat.hp = 0;
            self.combat.state = PlayerState::Dead;
            self.apply_death_penalty();
            true
        } else {
            self.combat.hp = self.combat.hp - damage;
            false
        }
    }

    /// Dies: zero HP, dead, and the experience penalty.
    pub fn die(&mut self)
        ensures
            *final(self) == (Player {
                combat: CombatStats { hp: 0, state: PlayerState::Dead, ..old(self).combat },
                level: LevelStats {
                    base_exp: spec_after_penalty(old(self).level.base_exp),
                    job_exp: spec_after_penalty(old(self).level.job_exp),
                    ..old(self).level
                },
                ..*old(self)
            }),
    {
        self.combat.hp = 0;
        self.combat.state = PlayerState::Dead;
        self.apply_death_penalty();
    }

    /// Comes back at `(x, y)` with full HP and SP, alive and standing.
    pub fn respawn(&mut self, x: u16, y: u16)
        ensures
            *final(self) == (Player {
                combat: CombatStats { hp: old(self).combat.max_hp, sp: old(self).combat.max_sp,
                    state: PlayerState::Alive, is_sitting: false, ..old(self).combat },
                pos: Position { x, y },
                ..*old(self)
            }),
    {
        self.combat.hp = self.combat.max_hp;
        self.combat.sp = self.combat.max_sp;
        self.combat.state = PlayerState::Alive;
        self.combat.is_sitting = false;
        self.pos = Position { x, y };
    }

    pub fn is_dead(&self) -> (b: bool) ensures b == (self.combat.state == PlayerState::Dead), { self.combat.state == PlayerState::Dead }
    pub fn is_alive(&self) -> (b: bool) ensures b == (self.combat.state == PlayerState::Alive), { self.combat.state == PlayerState::Alive }
    pub fn is_in_combat(&self) -> (b: bool) ensures b == self.combat.in_combat, { self.combat.in_combat }

    pub fn set_combat(&mut self, in_combat: bool)
        ensures
            *final(self) == (Player { combat: CombatStats { in_combat, ..old(self).combat }, ..*old(self) }),
    {
        self.combat.in_combat = in_combat;
    }

    pub fn direction(&self) -> (d: u16) ensures d == self.combat.direction, { self.combat.direction }

    /// Faces direction `dir`, taken modulo 8.
    pub fn set_direction(&mut self, dir: u16)
        ensures
            *final(self) == (Player { combat: CombatStats { direction: dir % 8, ..old(self).combat }, ..*old(self) }),
    {
        self.combat.direction = dir % 8;
    }

    pub fn set_job(&mut self, job: u16)
        ensures
            *final(self) == (Player { economy: Economy { job, ..old(self).economy }, ..*old(self) }),
    {
        self.economy.job = job;
    }

    pub fn sit(&mut self)
        ensures
            *final(self) == (Player { combat: CombatStats { is_sitting: true, ..old(self).combat }, ..*old(self) }),
    {
        self.combat.is_sitting = true;
    }

    pub fn stand(&mut self)
        ensures
            *final(self) == (Player { combat: CombatStats { is_sitting: false, ..old(self).combat }, ..*old(self) }),
    {
        self.combat.is_sitting = false;
    }

    pub fn is_sitting(&self) -> (b: bool) ensures b == self.combat.is_sitting, { self.combat.is_sitting }

    /// Drops half the player's zeny (rounded down) and returns how much.
    pub fn drop_zeny_on_death(&mut self) -> (dropped: u32)
        ensures
            dropped == old(self).economy.zeny / 2,
            *final(self) == (Player { economy: Economy { zeny: (old(self).economy.zeny - dropped) as u32, ..old(self).economy }, ..*old(self) }),
    {
        let drop_amount = self.economy.zeny / 2;
        if drop_amount > 0 {
            self.economy.zeny = self.economy.zeny - drop_amount;
        }
        drop_amount
    }

    /// Gains base experience.
    pub fn add_base_exp(&mut self, exp: u64)
        requires
            old(self).level.base_exp + exp <= u64::MAX,
        ensures
            *final(self) == (Player { level: LevelStats { base_exp: (old(self).level.base_exp + exp) as u64, ..old(self).level }, ..*old(self) }),
    {
        self.level.base_exp = self.level.base_exp + exp;
    }

    /// Gains job experience.
    pub fn add_job_exp(&mut self, exp: u64)
        requires
            old(self).level.job_exp + exp <= u64::MAX,
        ensures
            *final(self) == (Player { level: LevelStats { job_exp: (old(self).level.job_exp + exp) as u64, ..old(self).level }, ..*old(self) }),
    {
        self.level.job_exp = self.level.job_exp + exp;
    }

    /// Gains zeny, without going past `MAX_ZENY`.
    pub fn add_zeny(&mut self, zeny: u64)
        ensures
            ({
                let z = old(self).economy.zeny;
                let amount: int = if zeny < u32::MAX { zeny as int } else { u32::MAX as int };
                let room: int = if MAX_ZENY >= z { MAX_ZENY - z } else { 0 };
                *final(self) == (Player { economy: Economy {
                    zeny: (z + (if amount < room { amount } else { room })) as u32, ..old(self).economy }, ..*old(self) })
            }),
    {
        let amount: u32 = if zeny < u32::MAX as u64 { zeny as u32 } else { u32::MAX };
        let can_add: u32 = if MAX_ZENY >= self.economy.zeny { MAX_ZENY - self.economy.zeny } else { 0 };
        let add = if amount < can_add { amount } else { can_add };
        self.economy.zeny = self.economy.zeny + add;
    }

    /// Heals up to `amount` HP, not past the maximum.
    pub fn apply_heal(&mut self, amount: u32)
        requires
            old(self).combat.hp <= old(self).combat.max_hp,
        ensures
            final(self).combat.hp == (if amount < old(self).combat.max_hp - old(self).combat.hp {
                old(self).combat.hp + amount } else { old(self).combat.max_hp as int }),
            *final(self) == (Player { combat: CombatStats { hp: final(self).combat.hp, ..old(self).combat }, ..*old(self) }),
    {
        let room = self.combat.max_hp - self.combat.hp;
        let heal = if amount < room { amount } else { room };
        self.combat.hp = self.combat.hp + heal;
    }

    /// Restores up to `amount` SP, not past the maximum.
    pub fn apply_sp_heal(&mut self, amount: u32)
        requires
            old(self).combat.sp <= old(self).combat.max_sp,
        ensures
            final(self).combat.sp == (if amount < old(self).combat.max_sp - old(self).combat.sp {
                old(self).combat.sp + amount } else { old(self).combat.max_sp as int }),
            *final(self) == (Player { combat: CombatStats { sp: final(self).combat.sp, ..old(self).combat }, ..*old(self) }),
    {
        let room = self.combat.max_sp - self.combat.sp;
        let heal = if amount < room { amount } else { room };
        self.combat.sp = self.combat.sp + heal;
    }

    /// Whether the carried weight is over half the maximum.
    pub fn is_overweight(&self) -> (b: bool)
        requires
            self.economy.max_weight * 50 <= u32::MAX,
        ensures
            b == (self.economy.current_weight > self.economy.max_weight * 50 / 100),
    {
        self.economy.current_weight > self.economy.max_weight * 50 / 100
    }

    /// Whether the carried weight is over nine tenths of the maximum.
    pub fn is_overweight_90(&self) -> (b: bool)
        requires
            self.economy.max_weight * 90 <= u32::MAX,
        ensures
            b == (self.economy.current_weight > self.economy.max_weight * 90 / 100),
    {
        self.economy.current_weight > self.economy.max_weight * 90 / 100
    }

    /// What the player saves.
    pub fn to_save_data(&self) -> (d: PlayerSaveData)
        ensures
            d.char_id == self.char_id && d.last_map@ == self.map_name@,
            d.last_x == self.pos.x as i32 && d.last_y == self.pos.y as i32,
            d.hp == self.combat.hp && d.max_hp == self.combat.max_hp && d.sp == self.combat.sp && d.max_sp == self.combat.max_sp,
            d.base_exp == self.level.base_exp && d.job_exp == self.level.job_exp,
            d.base_level == self.level.base_level && d.job_level == self.level.job_level,
            d.class == self.economy.job && d.zeny == self.economy.zeny,
            d.str == self.attrs.str && d.agi == self.attrs.agi && d.vit == self.attrs.vit,
            d.int_ == self.attrs.int_ && d.dex == self.attrs.dex && d.luk == self.attrs.luk,
            d.status_point == self.level.status_point && d.skill_point == self.level.skill_point,
    {
        PlayerSaveData {
            char_id: self.char_id,
            last_map: self.map_name.clone(),
            last_x: self.pos.x as i32,
            last_y: self.pos.y as i32,
            hp: self.combat.hp,
            max_hp: self.combat.max_hp,
            sp: self.combat.sp,
            max_sp: self.combat.max_sp,
            base_exp: self.level.base_exp,
            job_exp: self.level.job_exp,
            base_level: self.level.base_level,
            job_level: self.level.job_level,
            class: self.economy.job,
            zeny: self.economy.zeny,
            str: self.attrs.str,
            agi: self.attrs.agi,
            vit: self.attrs.vit,
            int_: self.attrs.int_,
            dex: self.attrs.dex,
            luk: self.attrs.luk,
            status_point: self.level.status_point,
            skill_point: self.level.skill_point,
        }
    }
}

/// `b` holds the same values as player `a`.
pub open spec fn spec_same_player(a: Player, b: Player) -> bool {
    &&& b == (Player { name: b.name, map_name: b.map_name, save_point: b.save_point, ..a })
    &&& b.name@ == a.name@
    &&& b.map_name@ == a.map_name@
    &&& b.save_point.map@ == a.save_point.map@
    &&& b.save_point.x == a.save_point.x
    &&& b.save_point.y == a.save_point.y
}

impl Clone for Player {
    fn clone(&self) -> (p: Self)
        ensures
            spec_same_player(*self, p),
    {
        Player {
            id: self.id,
            char_id: self.char_id,
            account_id: self.account_id,
            name: self.name.clone(),
            map_name: self.map_name.clone(),
            combat: self.combat,
            pos: self.pos,
            level: self.level,
            attrs: self.attrs,
            economy: self.economy,
            save_point: SavePoint { map: self.save_point.map.clone(), x: self.save_point.x, y: self.save_point.y },
            party_id: self.party_id,
            guild_id: self.guild_id,
        }
    }
}

impl Player {
    pub fn status_point(&self) -> (v: u16) ensures v == self.level.status_point, { self.level.status_point }
    pub fn skill_point(&self) -> (v: u16) ensures v == self.level.skill_point, { self.level.skill_point }
    pub fn str(&self) -> (v: u16) ensures v == self.attrs.str, { self.attrs.str }
    pub fn agi(&self) -> (v: u16) ensures v == self.attrs.agi, { self.attrs.agi }
    pub fn vit(&self) -> (v: u16) ensures v == self.attrs.vit, { self.attrs.vit }
    /// Intelligence.
    pub fn int_(&self) -> (v: u16) ensures v == self.attrs.int_, { self.attrs.int_ }
    pub fn dex(&self) -> (v: u16) ensures v == self.attrs.dex, { self.attrs.dex }
    pub fn luk(&self) -> (v: u16) ensures v == self.attrs.luk, { self.attrs.luk }
    pub fn group_id(&self) -> (v: i32) ensures v == self.economy.group_id, { self.economy.group_id }
    pub fn max_weight(&self) -> (v: u32) ensures v == self.economy.max_weight, { self.economy.max_weight }
    pub fn current_weight(&self) -> (v: u32) ensures v == self.economy.current_weight, { self.economy.current_weight }
    pub fn party_id(&self) -> (v: Option<u128>) ensures v == self.party_id, { self.party_id }
    pub fn guild_id(&self) -> (v: Option<u128>) ensures v == self.guild_id, { self.guild_id }

    pub fn set_party_id(&mut self, party_id: Option<u128>)
        ensures
            *final(self) == (Player { party_id, ..*old(self) }),
    {
        self.party_id = party_id;
    }

    pub fn set_guild_id(&mut self, guild_id: Option<u128>)
        ensures
            *final(self) == (Player { guild_id, ..*old(self) }),
    {
        self.guild_id = guild_id;
    }
}

/// Dying never leaves more experience than before, and at least 99 percent of it.
pub proof fn lemma_death_penalty_bounds(exp: u64)
    ensures
        spec_after_penalty(exp) <= exp,
        spec_after_penalty(exp) * 100 >= exp * 99,
{
}

} // verus!
