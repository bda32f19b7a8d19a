//! How monsters decide what to do each tick: the state machine of idle,
//! chase, attack, flee, return and death, and when a monster skill fires.
//!
//! The world is handed in as plain observations (the players and monsters
//! around); effects that reach other systems (battle, events, experience)
//! are handed back to the caller as outcomes.

use vstd::prelude::*;
use std::collections::HashMap;
use crate::mob::data::{
    Mob, MobDrop, MobSkill, MobSkillCondition, MobSkillTarget, MobAIState, MobBehavior, MobPosition, MobPathManager,
    spec_hp_percent, spec_fresh_at_spawn,
};
use crate::mob::pathfinder::{Pathfinder, isqrt, spec_is_isqrt, spec_is_path, spec_within_radius};
use crate::mob::droptable::{DropResolver, MobDropTable, MVPResolver, spec_drops_follow, spec_resolved};
use crate::map::data::MapDatabase;
use crate::map::drop_item::{DropItem, DropManager};
use crate::map::channel::{ChannelBus, EntityIds, GameEvent, map_channel_name};
use crate::map::map_state::MapState;
use crate::rng::GameRng;
use crate::text::str_eq;

verus! {

broadcast use vstd::std_specs::hash::group_hash_axioms;

/// A target farther than this many cells is at long range.
pub const LONG_RANGE_THRESHOLD: u16 = 3;

/// A monster hit by at least this many players is being mobbed.
pub const RUDE_ATTACK_MIN_ATTACKERS: usize = 2;

/// A monster that flees when hurt starts at or under this HP percentage.
pub const FLEE_HP_THRESHOLD: u32 = 25;

/// A fleeing monster stops once back at or over this HP percentage.
pub const FLEE_RECOVERY_THRESHOLD: u32 = 50;

/// Whether the condition of `skill` holds for a monster at `hp_percent` HP,
/// hit by `attacker_count` players, with its target `target_distance` away.
pub open spec fn spec_skill_condition(skill: MobSkill, hp_percent: u32, attacker_count: usize, target_distance: u16) -> bool {
    match skill.condition {
        MobSkillCondition::Any => true,
        MobSkillCondition::HpCertain => hp_percent <= skill.condition_value,
        MobSkillCondition::RudeAttacked => attacker_count >= RUDE_ATTACK_MIN_ATTACKERS,
        MobSkillCondition::LongRange => target_distance > LONG_RANGE_THRESHOLD,
    }
}

/// Whether the condition of `skill` holds.
pub fn check_skill_condition(skill: &MobSkill, hp_percent: u32, attacker_count: usize, target_distance: u16) -> (b: bool)
    ensures
        b == spec_skill_condition(*skill, hp_percent, attacker_count, target_distance),
{
    match skill.condition {
        MobSkillCondition::Any => true,
        MobSkillCondition::HpCertain => hp_percent <= skill.condition_value,
        MobSkillCondition::RudeAttacked => attacker_count >= RUDE_ATTACK_MIN_ATTACKERS,
        MobSkillCondition::LongRange => target_distance > LONG_RANGE_THRESHOLD,
    }
}

/// The squared Euclidean distance between two cells.
pub open spec fn spec_dist_sq(x1: u16, y1: u16, x2: u16, y2: u16) -> int {
    (x1 - x2) * (x1 - x2) + (y1 - y2) * (y1 - y2)
}

/// Whether the distance between two cells, rounded down, is at most `r`.
pub open spec fn spec_within(x1: u16, y1: u16, x2: u16, y2: u16, r: u16) -> bool {
    spec_dist_sq(x1, y1, x2, y2) < (r + 1) * (r + 1)
}

proof fn lemma_isqrt_within(n: int, d: int, r: int)
    requires
        spec_is_isqrt(n, d),
        r >= 0,
    ensures
        d <= r <==> n < (r + 1) * (r + 1),
{
    if d <= r {
        assert((d + 1) * (d + 1) <= (r + 1) * (r + 1)) by (nonlinear_arith)
            requires 0 <= d <= r;
    } else {
        assert((r + 1) * (r + 1) <= d * d) by (nonlinear_arith)
            requires 0 <= r, r + 1 <= d;
    }
}

fn dist_sq(x1: u16, y1: u16, x2: u16, y2: u16) -> (n: u64)
    ensures
        n == spec_dist_sq(x1, y1, x2, y2),
        n < 0x4_0000_0000,
{
    let dx: u64 = if x1 >= x2 { (x1 - x2) as u64 } else { (x2 - x1) as u64 };
    let dy: u64 = if y1 >= y2 { (y1 - y2) as u64 } else { (y2 - y1) as u64 };
    assert(dx * dx <= 65535 * 65535 && dy * dy <= 65535 * 65535) by (nonlinear_arith)
        requires dx <= 65535, dy <= 65535;
    assert(dx * dx == (x1 - x2) * (x1 - x2)) by (nonlinear_arith)
        requires dx == (if x1 >= x2 { x1 - x2 } else { x2 - x1 });
    assert(dy * dy == (y1 - y2) * (y1 - y2)) by (nonlinear_arith)
        requires dy == (if y1 >= y2 { y1 - y2 } else { y2 - y1 });
    dx * dx + dy * dy
}

/// Whether the distance between two cells, rounded down, is at most `r`.
pub fn within(x1: u16, y1: u16, x2: u16, y2: u16, r: u16) -> (b: bool)
    ensures
        b == spec_within(x1, y1, x2, y2, r),
{
    let n = dist_sq(x1, y1, x2, y2);
    let d = isqrt(n);
    proof {
        lemma_isqrt_within(n as int, d as int, r as int);
    }
    d <= r as u64
}

/// The distance between two cells, rounded down. The squared distance must
/// fit in an `i32`.
pub fn calculate_distance(x1: u16, y1: u16, x2: u16, y2: u16) -> (d: u16)
    requires
        spec_dist_sq(x1, y1, x2, y2) <= i32::MAX,
    ensures
        spec_is_isqrt(spec_dist_sq(x1, y1, x2, y2), d as int),
{
    let n = dist_sq(x1, y1, x2, y2);
    let d = isqrt(n);
    assert(d < 0x1_0000) by (nonlinear_arith)
        requires d * d <= n, n <= 0x7fff_ffff;
    d as u16
}

/// Whether a skill is off cooldown at `now` (milliseconds): never used, or
/// its cooldown has passed since the last use.
pub open spec fn spec_skill_ready(cooldowns: Map<u16, u64>, skill: MobSkill, now: u64) -> bool {
    !cooldowns.contains_key(skill.skill_id)
        || (if now >= cooldowns[skill.skill_id] { now - cooldowns[skill.skill_id] } else { 0 }) >= skill.cooldown_ms
}

/// Whether `skill` is off cooldown for `mob` at `now`.
pub fn is_skill_ready(mob: &Mob, skill: &MobSkill, now: u64) -> (b: bool)
    ensures
        b == spec_skill_ready(mob.skill_cooldowns@, *skill, now),
{
    match mob.skill_cooldowns.get(&skill.skill_id) {
        Some(last_used) => {
            let elapsed: u64 = if now >= *last_used { now - *last_used } else { 0 };
            elapsed >= skill.cooldown_ms
        },
        None => true,
    }
}

/// The HP a healing monster skill restores: `level * 5` percent of the
/// maximum (at least one percent), and at least 1.
pub open spec fn spec_skill_heal_amount(max_hp: u32, level: u8) -> u32 {
    let pct = if level * 5 < 1 { 1 } else { level * 5 };
    let amount = (max_hp * pct / 100) as u32;
    if amount < 1 { 1 } else { amount }
}

pub fn skill_heal_amount(max_hp: u32, level: u8) -> (h: u32)
    ensures
        h == spec_skill_heal_amount(max_hp, level),
{
    let p: u32 = (level as u32) * 5;
    let pct: u32 = if p < 1 { 1 } else { p };
    assert(max_hp * pct / 100 <= max_hp * 1275 / 100) by (nonlinear_arith)
        requires pct <= 1275;
    let amount = ((max_hp as u64) * (pct as u64) / 100) as u32;
    if amount < 1 { 1 } else { amount }
}

/// The damage an attacking monster skill deals: `atk * (100 + 20 * level) / 100`,
/// at least 1.
pub open spec fn spec_skill_damage(atk: u16, level: u8) -> u32 {
    let d = atk * (100 + 20 * level) / 100;
    if d < 1 { 1 } else { d as u32 }
}

pub fn skill_damage(atk: u16, level: u8) -> (d: u32)
    ensures
        d == spec_skill_damage(atk, level),
{
    let multiplier: u64 = 100 + (level as u64) * 20;
    assert((atk as u64) * multiplier <= 65535 * 5200) by (nonlinear_arith)
        requires multiplier <= 5200, atk <= 65535;
    let d: u64 = (atk as u64) * multiplier / 100;
    if d < 1 { 1 } else { d as u32 }
}

/// A coordinate moved by `off` and clamped at 0, as the monster code does
/// (a result past 65535 wraps around).
pub open spec fn spec_moved_coord(c: u16, off: int) -> u16 {
    let v = c + off;
    (if v < 0 { 0 } else { v }) as u16
}

fn moved_coord(c: u16, off: i64) -> (r: u16)
    requires
        -0x8000_0005 <= off <= 0x8000_0000,
    ensures
        r == spec_moved_coord(c, off as int),
{
    let v: i64 = c as i64 + off;
    let v: i64 = if v < 0 { 0 } else { v };
    v as u16
}

fn flee_move(c: u16, from: u16, dist: u64) -> (m: i64)
    requires
        dist > 0,
        (c - from) * (c - from) < (dist + 1) * (dist + 1),
    ensures
        m == spec_flee_move(c - from, dist as int),
        -0x8000_0005 <= m <= 0x8000_0000,
{
    if c >= from {
        let d: u64 = (c - from) as u64;
        assert(d <= dist) by (nonlinear_arith)
            requires (c - from) * (c - from) < (dist + 1) * (dist + 1), d == c - from, dist > 0;
        ((2 * d) / dist) as i64
    } else {
        let d: u64 = (from - c) as u64;
        assert(d <= dist) by (nonlinear_arith)
            requires (c - from) * (c - from) < (dist + 1) * (dist + 1), d == from - c, dist > 0;
        -(((2 * d) / dist) as i64)
    }
}

/// The offset a roll `v` of `0..=span` gives in `min..=min + span`.
pub open spec fn spec_offset(min: int, v: u32) -> int {
    min + (v as i32) as int
}

/// A player a monster can see: id, map and position.
pub struct SeenPlayer {
    pub id: u128,
    pub map_name: String,
    pub x: u16,
    pub y: u16,
}

/// Another monster nearby: id, position, state and target.
#[derive(Clone, Copy)]
pub struct SeenMob {
    pub id: u128,
    pub x: u16,
    pub y: u16,
    pub ai_state: MobAIState,
    pub target_id: Option<u128>,
}

/// Whether player `p` stands on `map` within `sight` of `(x, y)`.
pub open spec fn spec_in_sight(p: SeenPlayer, map: Seq<char>, x: u16, y: u16, sight: u16) -> bool {
    p.map_name@ == map && spec_within(x, y, p.x, p.y, sight)
}

/// The position in `players` of the player in sight (see `spec_in_sight`)
/// nearest to `(x, y)`, the earliest of equally near ones; `None` when no
/// player is in sight.
pub open spec fn spec_closest_in_sight(players: Seq<SeenPlayer>, map: Seq<char>, x: u16, y: u16, sight: u16) -> Option<int>
    decreases players.len(),
{
    if players.len() == 0 {
        None
    } else {
        let best = spec_closest_in_sight(players.drop_last(), map, x, y, sight);
        let p = players.last();
        if spec_in_sight(p, map, x, y, sight) && (match best {
            Some(b) => spec_dist_sq(x, y, p.x, p.y) < spec_dist_sq(x, y, players[b].x, players[b].y),
            None => true,
        }) {
            Some(players.len() - 1)
        } else {
            best
        }
    }
}

/// The id of the player an aggressive monster at `(x, y)` on `map` picks:
/// the nearest one in sight.
pub open spec fn spec_closest_player_in_sight(players: Seq<SeenPlayer>, map: Seq<char>, x: u16, y: u16, sight: u16) -> Option<u128> {
    match spec_closest_in_sight(players, map, x, y, sight) {
        Some(i) => Some(players[i].id),
        None => None,
    }
}

/// The target of the first other monster in `mobs`, within `sight` of
/// `(x, y)`, that is chasing or attacking someone.
pub open spec fn spec_first_assist_target(mobs: Seq<SeenMob>, self_id: u128, x: u16, y: u16, sight: u16) -> Option<u128>
    decreases mobs.len(),
{
    if mobs.len() == 0 {
        None
    } else {
        let m = mobs[0];
        if m.id != self_id && spec_within(x, y, m.x, m.y, sight)
            && (m.ai_state == MobAIState::Chase || m.ai_state == MobAIState::Attack) && m.target_id is Some {
            m.target_id
        } else {
            spec_first_assist_target(mobs.drop_first(), self_id, x, y, sight)
        }
    }
}

proof fn lemma_closest_index_in_range(players: Seq<SeenPlayer>, map: Seq<char>, x: u16, y: u16, sight: u16)
    ensures
        spec_closest_in_sight(players, map, x, y, sight) matches Some(i) ==> 0 <= i < players.len(),
    decreases players.len(),
{
    if players.len() > 0 {
        lemma_closest_index_in_range(players.drop_last(), map, x, y, sight);
    }
}

fn closest_player_in_sight(players: &[SeenPlayer], map: &str, x: u16, y: u16, sight: u16) -> (r: Option<u128>)
    ensures
        r == spec_closest_player_in_sight(players@, map@, x, y, sight),
{
    let mut best: Option<usize> = None;
    let mut best_d: u64 = 0;
    let mut i: usize = 0;
    assert(players@.take(0) =~= Seq::<SeenPlayer>::empty());
    while i < players.len()
        invariant
            i <= players@.len(),
            match best {
                Some(b) => spec_closest_in_sight(players@.take(i as int), map@, x, y, sight) == Some(b as int)
                    && b < i && best_d == spec_dist_sq(x, y, players@[b as int].x, players@[b as int].y),
                None => spec_closest_in_sight(players@.take(i as int), map@, x, y, sight) is None,
            },
        decreases players@.len() - i,
    {
        let p = &players[i];
        let ghost pre = players@.take(i as int);
        let ghost next = players@.take(i + 1);
        assert(next.drop_last() =~= pre);
        assert(next.last() == *p);
        proof {
            lemma_closest_index_in_range(pre, map@, x, y, sight);
            if let Some(b) = best {
                assert(next[b as int] == players@[b as int]);
                assert(pre[b as int] == players@[b as int]);
            }
        }
        if str_eq(p.map_name.as_str(), map) && within(x, y, p.x, p.y, sight) {
            let d = dist_sq(x, y, p.x, p.y);
            match best {
                Some(_) => {
                    if d < best_d {
                        best = Some(i);
                        best_d = d;
                    }
                },
                None => {
                    best = Some(i);
                    best_d = d;
                },
            }
        }
        i = i + 1;
    }
    assert(players@.take(players@.len() as int) =~= players@);
    match best {
        Some(b) => Some(players[b].id),
        None => None,
    }
}

fn first_assist_target(mobs: &[SeenMob], self_id: u128, x: u16, y: u16, sight: u16) -> (r: Option<u128>)
    ensures
        r == spec_first_assist_target(mobs@, self_id, x, y, sight),
{
    assert(mobs@.subrange(0, mobs@.len() as int) =~= mobs@);
    let mut i: usize = 0;
    while i < mobs.len()
        invariant
            i <= mobs@.len(),
            spec_first_assist_target(mobs@, self_id, x, y, sight)
                == spec_first_assist_target(mobs@.subrange(i as int, mobs@.len() as int), self_id, x, y, sight),
        decreases mobs@.len() - i,
    {
        let m = mobs[i];
        let ghost rest = mobs@.subrange(i as int, mobs@.len() as int);
        assert(rest[0] == m);
        if m.id != self_id && within(x, y, m.x, m.y, sight)
            && (m.ai_state == MobAIState::Chase || m.ai_state == MobAIState::Attack) && m.target_id.is_some() {
            return m.target_id;
        }
        assert(rest.drop_first() =~= mobs@.subrange(i + 1, mobs@.len() as int));
        i = i + 1;
    }
    None
}

/// Whom an idle monster starts chasing, if anyone: an aggressive monster
/// the first player in sight on its map; an assisting monster the target of
/// the first fighting monster in sight, a passive assister only once it was
/// hit itself.
pub open spec fn spec_idle_chase_target(m: Mob, players: Seq<SeenPlayer>, mobs: Seq<SeenMob>) -> Option<u128> {
    match m.behavior {
        MobBehavior::Aggressive => spec_closest_player_in_sight(players, m.spawn_map@, m.pos.x, m.pos.y, m.sight_range),
        MobBehavior::Assist => spec_first_assist_target(mobs, m.id, m.pos.x, m.pos.y, m.sight_range),
        MobBehavior::PassiveAssist =>
            if m.damage_log@.dom().len() > 0 {
                spec_first_assist_target(mobs, m.id, m.pos.x, m.pos.y, m.sight_range)
            } else {
                None
            },
        _ => None,
    }
}

/// HP is low enough to make a fleeing kind of monster run.
pub open spec fn spec_low_hp(m: Mob) -> bool {
    let p = spec_hp_percent(m.hp, m.max_hp);
    0 < p <= FLEE_HP_THRESHOLD
}

/// Whether an idle monster starts fleeing: it flees when hurt, its HP is
/// low and someone has hit it.
pub open spec fn spec_idle_flees(m: Mob) -> bool {
    m.behavior == MobBehavior::FleeWhenLowHp && spec_low_hp(m) && m.damage_log@.dom().len() > 0
}

/// Where a wandering monster at `(x, y)` goes for a roll `roll` (of
/// 0..=99) and offsets `dx`, `dy`: with a roll under 5 it moves by the
/// offsets (coordinates stop at 0); otherwise it stays.
pub open spec fn spec_wander(x: u16, y: u16, roll: int, dx: int, dy: int) -> Option<(u16, u16)> {
    if roll < 5 {
        Some((spec_moved_coord(x, dx), spec_moved_coord(y, dy)))
    } else {
        None
    }
}

/// A patrol tick took monster `o` to `f`: only its position changed, by
/// offsets in -5..=5 on each axis (coordinates stop at 0).
pub open spec fn spec_patrol_tick(o: Mob, f: Mob) -> bool {
    &&& f == (Mob { pos: f.pos, ..o })
    &&& exists|dx: int, dy: int| -5 <= dx <= 5 && -5 <= dy <= 5 && f.pos == (MobPosition {
        x: #[trigger] spec_moved_coord(o.pos.x, dx),
        y: #[trigger] spec_moved_coord(o.pos.y, dy),
    })
}

/// The chase path of `pm` has been dropped.
pub open spec fn spec_stopped(pm: MobPathManager) -> bool {
    !pm.is_chasing && pm.target_pos is None && pm.cached_path@.len() == 0 && pm.current_step == 0 && !pm.path_invalid
}

/// Some player who hit the monster, if any did.
fn some_attacker(log: &HashMap<u128, u64>) -> (r: Option<u128>)
    ensures
        r is None <==> log@.dom().len() == 0,
        r matches Some(a) ==> log@.contains_key(a),
{
    let mut found: Option<u128> = None;
    for k in it: log.keys()
        invariant
            it.seq().len() == log@.dom().len(),
            found is None <==> it.index() == 0,
            forall|k2: u128| #[trigger] log@.contains_key(k2) ==> exists|j: int| 0 <= j < it.seq().len() && *it.seq()[j] == k2,
            it.seq().unref().to_set() == log@.dom(),
            found matches Some(a) ==> log@.contains_key(a),
    {
        if found.is_none() {
            assert(it.seq().unref()[it.index() as int] == *k);
            assert(it.seq().unref().contains(*k));
            found = Some(*k);
        }
    }
    found
}

/// The monster drops its target and path and heads back.
pub open spec fn spec_gives_up(o: Mob, f: Mob) -> bool {
    &&& f == (Mob { ai_state: MobAIState::Return, target_id: None, path_manager: f.path_manager, ..o })
    &&& spec_stopped(f.path_manager)
}

/// The chase path must be computed anew for target cell `t`.
pub open spec fn spec_needs_path(pm: MobPathManager, t: (u16, u16)) -> bool {
    !pm.is_chasing || pm.target_pos != Some(t) || pm.path_invalid
}

/// One step along a path, from mob `o` to mob `f`: before the step the
/// path manager is chasing `target` (if `chasing`) along `path`, at `step`,
/// marked unusable when `invalid`. The next cell, if any is left, is taken
/// when `map` is known and the cell is walkable there; on a known map an
/// unwalkable cell marks the path unusable instead.
pub open spec fn spec_follow_step(
    o: Mob,
    f: Mob,
    chasing: bool,
    target: Option<(u16, u16)>,
    path: Seq<(u16, u16)>,
    step: int,
    invalid: bool,
    map: Option<crate::map::data::MapData>,
) -> bool {
    &&& f == (Mob { pos: f.pos, path_manager: f.path_manager, ..o })
    &&& f.path_manager.is_chasing == chasing
    &&& f.path_manager.target_pos == target
    &&& f.path_manager.cached_path@ == path
    &&& if 0 <= step < path.len() {
        let n = path[step];
        &&& f.path_manager.current_step == step + 1
        &&& match map {
            Some(m) => if m.spec_walkable(n.0 as int, n.1 as int) {
                f.pos == (MobPosition { x: n.0, y: n.1 }) && f.path_manager.path_invalid == invalid
            } else {
                f.pos == o.pos && f.path_manager.path_invalid
            },
            None => f.pos == o.pos && f.path_manager.path_invalid == invalid,
        }
    } else {
        f.path_manager.current_step == step && f.pos == o.pos && f.path_manager.path_invalid == invalid
    }
}

/// The map a monster is on, if it is known.
pub open spec fn spec_map_of(maps: Map<Seq<char>, crate::map::data::MapData>, name: Seq<char>) -> Option<crate::map::data::MapData> {
    if maps.contains_key(name) { Some(maps[name]) } else { None }
}

/// An idle tick took monster `o` to `f`, seeing `players` and `mobs`.
pub open spec fn spec_idle_tick(o: Mob, f: Mob, players: Seq<SeenPlayer>, mobs: Seq<SeenMob>) -> bool {
    ({
                                match spec_idle_chase_target(o, players, mobs) {
                    Some(t) => f == (Mob { ai_state: MobAIState::Chase, target_id: Some(t), ..o }),
                    None => if spec_idle_flees(o) {
                        &&& f == (Mob { ai_state: MobAIState::Flee, flee_from: f.flee_from, ..o })
                        &&& f.flee_from matches Some(a) && o.damage_log@.contains_key(a)
                    } else {
                        &&& f == (Mob { pos: f.pos, ..o })
                        &&& o.behavior == MobBehavior::Immobile ==> f.pos == o.pos
                        &&& f.pos == o.pos || exists|roll: int, dx: int, dy: int|
                            0 <= roll <= 99 && -3 <= dx <= 3 && -3 <= dy <= 3
                            && #[trigger] spec_wander(o.pos.x, o.pos.y, roll, dx, dy) == Some((f.pos.x, f.pos.y))
                    },
                }
            })
}

/// A chase tick on `maps` took monster `o` to `f`, its target standing at
/// `target_pos` (`None` when gone).
pub open spec fn spec_chase_tick(maps: Map<Seq<char>, crate::map::data::MapData>, o: Mob, f: Mob, target_pos: Option<(u16, u16)>) -> bool {
    ({
                                let map = spec_map_of(maps, o.map_name@);
                let pm = o.path_manager;
                if o.behavior == MobBehavior::FleeWhenLowHp && spec_low_hp(o) {
                    f == (Mob { flee_from: o.target_id, ai_state: MobAIState::Flee, ..o })
                } else if o.target_id is None {
                    f == o
                } else {
                    match target_pos {
                        None => spec_gives_up(o, f),
                        Some(t) => if spec_within(o.pos.x, o.pos.y, t.0, t.1, o.atk_range) {
                            f == (Mob { ai_state: MobAIState::Attack, ..o })
                        } else if !spec_within(o.pos.x, o.pos.y, t.0, t.1, o.chase_range) {
                            spec_gives_up(o, f)
                        } else if !spec_needs_path(pm, t) {
                            spec_follow_step(o, f, pm.is_chasing, pm.target_pos, pm.cached_path@, pm.current_step as int, pm.path_invalid, map)
                        } else {
                            match map {
                                None => spec_follow_step(o, f, false, None, Seq::empty(), 0, false, map),
                                Some(m) => if spec_within_radius((o.pos.x, o.pos.y), t, o.chase_range)
                                    && exists|p: Seq<(u16, u16)>| spec_is_path(m, (o.pos.x, o.pos.y), t, p) {
                                    exists|p: Seq<(u16, u16)>| #[trigger] spec_is_path(m, (o.pos.x, o.pos.y), t, p)
                                        && spec_follow_step(o, f, true, Some(t), p.drop_first(), 0, false, map)
                                } else {
                                    spec_gives_up(o, f)
                                },
                            }
                        },
                    }
                }
            })
}

/// The distance between two cells, rounded down and capped at 65535.
pub open spec fn spec_capped_distance(x1: u16, y1: u16, x2: u16, y2: u16, d: u16) -> bool {
    ||| d < 65535 && spec_is_isqrt(spec_dist_sq(x1, y1, x2, y2), d as int)
    ||| d == 65535 && spec_dist_sq(x1, y1, x2, y2) >= 65535 * 65535
}

/// The distance a monster at `pos` measures to its target at `target_pos`
/// (0 when the target is gone).
pub open spec fn spec_target_distance(pos: MobPosition, target_pos: Option<(u16, u16)>, d: u16) -> bool {
    match target_pos {
        Some(t) => spec_capped_distance(pos.x, pos.y, t.0, t.1, d),
        None => d == 0,
    }
}

/// Skill `i` of monster `o` may fire at `now` against a target at
/// `target_pos`: it is off cooldown and its condition holds.
pub open spec fn spec_skill_eligible(o: Mob, i: int, target_pos: Option<(u16, u16)>, now: u64) -> bool {
    &&& 0 <= i < o.skills@.len()
    &&& spec_skill_ready(o.skill_cooldowns@, o.skills@[i], now)
    &&& exists|d: u16| spec_target_distance(o.pos, target_pos, d)
        && #[trigger] spec_skill_condition(o.skills@[i], spec_hp_percent(o.hp, o.max_hp), o.dmglog@.dom().len() as usize, d)
}

/// Two distances measured from the same cell to the same target are equal.
proof fn lemma_target_distance_unique(pos: MobPosition, target_pos: Option<(u16, u16)>, d1: u16, d2: u16)
    requires
        spec_target_distance(pos, target_pos, d1),
        spec_target_distance(pos, target_pos, d2),
    ensures
        d1 == d2,
{
    if let Some(t) = target_pos {
        let n = spec_dist_sq(pos.x, pos.y, t.0, t.1);
        if d1 < 65535 {
            lemma_isqrt_within(n, d1 as int, 65534);
        }
        if d2 < 65535 {
            lemma_isqrt_within(n, d2 as int, 65534);
        }
        if d1 < 65535 && d2 < 65535 {
            lemma_isqrt_within(n, d1 as int, d2 as int);
            lemma_isqrt_within(n, d2 as int, d1 as int);
        }
    }
}

/// Firing skill `i` at `now` took `o` to `f`: the skill's cooldown starts
/// when it has one.
pub open spec fn spec_skill_fired(o: Mob, f: Mob, i: int, now: u64) -> bool {
    let sk = o.skills@[i];
    &&& f == (Mob { skill_cooldowns: f.skill_cooldowns, ..o })
    &&& f.skill_cooldowns@ == (if sk.cooldown_ms > 0 { o.skill_cooldowns@.insert(sk.skill_id, now) } else { o.skill_cooldowns@ })
}

/// How far a fleeing monster moves along one axis: twice the offset `d`
/// from the attacker divided by the distance, rounded toward zero.
pub open spec fn spec_flee_move(d: int, dist: int) -> int {
    if d >= 0 { (2 * d) / dist } else { -((2 * -d) / dist) }
}

/// A flee tick took monster `o` to `f`, its attacker standing at
/// `attacker_pos` (`None` when gone). At or over the recovery threshold it
/// calms down; without an attacker in the world it goes idle; otherwise it
/// steps away from the attacker.
pub open spec fn spec_flee_tick(o: Mob, f: Mob, attacker_pos: Option<(u16, u16)>) -> bool {
    if spec_hp_percent(o.hp, o.max_hp) >= FLEE_RECOVERY_THRESHOLD {
        f == (Mob { ai_state: MobAIState::Idle, flee_from: None, path_manager: f.path_manager, ..o }) && spec_stopped(f.path_manager)
    } else if o.flee_from is None {
        f == (Mob { ai_state: MobAIState::Idle, ..o })
    } else {
        match attacker_pos {
            None => f == (Mob { ai_state: MobAIState::Idle, flee_from: None, ..o }),
            Some(a) => exists|dist: int| #[trigger] spec_is_isqrt(spec_dist_sq(o.pos.x, o.pos.y, a.0, a.1), dist) && (
                if dist == 0 {
                    f == o
                } else {
                    f == (Mob { pos: MobPosition {
                        x: spec_moved_coord(o.pos.x, spec_flee_move(o.pos.x - a.0, dist)),
                        y: spec_moved_coord(o.pos.y, spec_flee_move(o.pos.y - a.1, dist)),
                    }, ..o })
                }),
        }
    }
}

/// Whether a monster that died at `death_time` respawns at `now`.
pub open spec fn spec_should_respawn(death_time: Option<u64>, respawn_time: u32, now: u64) -> bool {
    match death_time {
        Some(t) => (if now >= t { now - t } else { 0 }) >= respawn_time,
        None => false,
    }
}

/// The world as one monster sees it on a tick: every player (with the map
/// each is on) and the active monsters of its map.
pub struct WorldView {
    pub players: Vec<SeenPlayer>,
    pub mobs: Vec<SeenMob>,
}

/// The position of player `id` among `players`, if present (the first match).
pub open spec fn spec_player_pos(players: Seq<SeenPlayer>, id: u128) -> Option<(u16, u16)>
    decreases players.len(),
{
    if players.len() == 0 {
        None
    } else if players[0].id == id {
        Some((players[0].x, players[0].y))
    } else {
        spec_player_pos(players.drop_first(), id)
    }
}

/// Where player `id` stands, if the world holds them.
pub fn player_pos(players: &[SeenPlayer], id: u128) -> (r: Option<(u16, u16)>)
    ensures
        r == spec_player_pos(players@, id),
{
    assert(players@.subrange(0, players@.len() as int) =~= players@);
    let mut i: usize = 0;
    while i < players.len()
        invariant
            i <= players@.len(),
            spec_player_pos(players@, id) == spec_player_pos(players@.subrange(i as int, players@.len() as int), id),
        decreases players@.len() - i,
    {
        let ghost rest = players@.subrange(i as int, players@.len() as int);
        assert(rest[0] == players@[i as int]);
        if players[i].id == id {
            return Some((players[i].x, players[i].y));
        }
        assert(rest.drop_first() =~= players@.subrange(i + 1, players@.len() as int));
        i = i + 1;
    }
    None
}

/// What a monster in the attack state did on a tick.
#[derive(Debug, Clone, Copy, PartialEq, Eq, Structural)]
pub enum AttackOutcome {
    /// It started fleeing.
    Fled,
    /// It had no target; nothing happened.
    NoTarget,
    /// It used the skill at this index of its skill list (the caller
    /// carries out the effect).
    SkillUsed(usize),
    /// It makes a normal attack on its target (carried out by the caller).
    NormalAttack,
    /// Its target is gone; it returns.
    TargetGone,
}

/// What a dead monster reports the first time it is handled: who killed it
/// (0 when nobody), the MVP, and the drops rolled from its table.
pub struct DeathReport {
    pub killer_id: u128,
    pub mvp_id: Option<u128>,
    pub drops: Vec<DropItem>,
}

/// What a tick hands back to the caller.
pub enum TickOutcome {
    Nothing,
    Attack(AttackOutcome),
    Death(Option<DeathReport>),
}

/// The attack tick of monster `o` (becoming `f`), its target standing at
/// `target_pos` (`None` when gone), at time `now`: a monster that flees when
/// hurt starts fleeing at low HP; without a target nothing happens; else an
/// eligible skill may fire (never when none is eligible), or it attacks a
/// present target, or, the target gone, returns.
pub open spec fn spec_attack_tick(o: Mob, f: Mob, target_pos: Option<(u16, u16)>, now: u64, r: AttackOutcome) -> bool {
    if o.behavior == MobBehavior::FleeWhenLowHp && spec_low_hp(o) {
        r == AttackOutcome::Fled && f == (Mob { flee_from: o.target_id, ai_state: MobAIState::Flee, ..o })
    } else if o.target_id is None {
        r == AttackOutcome::NoTarget && f == o
    } else {
        &&& (match r {
            AttackOutcome::SkillUsed(i) => spec_skill_eligible(o, i as int, target_pos, now) && spec_skill_fired(o, f, i as int, now),
            AttackOutcome::NormalAttack => target_pos is Some && f == o,
            AttackOutcome::TargetGone => target_pos is None && f == (Mob { ai_state: MobAIState::Return, target_id: None, ..o }),
            _ => false,
        })
        &&& ((forall|i: int| 0 <= i < o.skills@.len() ==> !spec_skill_eligible(o, i, target_pos, now)) ==> !(r is SkillUsed))
    }
}

/// The dead tick of monster `o` (becoming `f`) at time `now`, with the drop
/// tables `tables`: the first time, the death is reported (the killer, or 0;
/// the MVP, the top of the damage record; drops resolved from the monster's
/// table, none without one) and the damage record is cleared; once the
/// respawn time has passed, the monster is back at its spawn point.
pub open spec fn spec_dead_tick(tables: Map<u16, MobDropTable>, o: Mob, f: Mob, now: u64, r: Option<DeathReport>) -> bool {
    &&& o.drops_processed ==> r is None
    &&& !o.drops_processed ==> (r matches Some(rep) && rep.killer_id == (match o.target_id { Some(k) => k, None => 0 })
        && (rep.mvp_id is None <==> o.damage_log@.dom().len() == 0)
        && (rep.mvp_id matches Some(p) ==> o.damage_log@.contains_key(p)
            && forall|q: u128| #[trigger] o.damage_log@.contains_key(q) ==> o.damage_log@[q] <= o.damage_log@[p])
        && (tables.contains_key(o.mob_id) ==> exists|idx: Seq<int>|
            #[trigger] spec_drops_follow(tables[o.mob_id].spec_entries(), rep.mvp_id is Some, rep.drops@, idx))
        && (tables.contains_key(o.mob_id) ==> exists|rolls: Seq<u32>, amounts: Seq<u16>|
            #[trigger] spec_resolved(tables[o.mob_id].spec_entries(), rep.mvp_id is Some, rolls, amounts, rep.drops@))
        && (!tables.contains_key(o.mob_id) ==> rep.drops@.len() == 0))
    &&& f.damage_log@ == (if o.drops_processed { o.damage_log@ } else { Map::<u128, u64>::empty() })
    &&& spec_should_respawn(o.death_time, o.respawn_time, now) ==> spec_fresh_at_spawn(f) && f == (Mob {
            hp: o.max_hp,
            sp: o.max_sp,
            pos: MobPosition { x: o.spawn_x, y: o.spawn_y },
            ai_state: MobAIState::Idle,
            target_id: None,
            death_time: None,
            drops_processed: false,
            path_manager: f.path_manager,
            skill_cooldowns: f.skill_cooldowns,
            dmglog: f.dmglog,
            flee_from: None,
            damage_log: f.damage_log,
            ..o
        })
    &&& !spec_should_respawn(o.death_time, o.respawn_time, now) ==>
        f == (Mob { drops_processed: true, damage_log: f.damage_log, ..o })
}

/// The monster state machine, with the maps to find paths on, a random
/// source and the drop tables.
pub struct MobAI<R: GameRng> {
    map_database: MapDatabase,
    rng: R,
    drop_resolver: DropResolver,
    drop_tables: HashMap<u16, MobDropTable>,
}

impl<R: GameRng> MobAI<R> {
    /// The random source the monsters draw from.
    pub closed spec fn spec_rng(&self) -> R {
        self.rng
    }

    /// The maps the monsters move on.
    pub closed spec fn spec_maps(&self) -> Map<Seq<char>, crate::map::data::MapData> {
        self.map_database@
    }

    pub fn new(map_database: MapDatabase, rng: R) -> (ai: Self)
        ensures
            ai.spec_maps() == map_database@,
    {
        MobAI { map_database, rng, drop_resolver: DropResolver, drop_tables: HashMap::new() }
    }

    /// The drop tables, by monster kind.
    pub closed spec fn spec_drop_tables(&self) -> Map<u16, MobDropTable> {
        self.drop_tables@
    }

    /// Replaces the drop tables.
    pub fn set_drop_tables(&mut self, tables: HashMap<u16, MobDropTable>)
        ensures
            final(self).spec_maps() == old(self).spec_maps(),
            final(self).spec_drop_tables() == tables@,
    {
        self.drop_tables = tables;
    }

    /// A roll in 0..=99, as an `i32`.
    pub fn rand_simple(&self) -> (r: i32)
        ensures
            0 <= r <= 99,
            exists|v: u32| #[trigger] self.spec_rng().range_roll(0, 99, v) && r == v,
    {
        let v = self.rng.rand_range(0, 99);
        assert(self.spec_rng().range_roll(0, 99, v));
        v as i32
    }

    /// A roll in `min..=max`: `min` plus a roll of `0..=max - min`.
    pub fn rand_offset(&self, min: i32, max: i32) -> (r: i64)
        requires
            min <= max,
        ensures
            exists|v: u32| r == #[trigger] spec_offset(min as int, v),
            max - min <= i32::MAX ==> min <= r <= max,
            exists|v: u32| #[trigger] self.spec_rng().range_roll(0, (max - min) as u32, v) && r == spec_offset(min as int, v),
    {
        let span: u32 = (max as i64 - min as i64) as u32;
        let v = self.rng.rand_range(0, span);
        let w: i32 = v as i32;
        let r: i64 = min as i64 + (w as i64);
        assert(r == spec_offset(min as int, v));
        assert(span == (max - min) as u32);
        assert(self.spec_rng().range_roll(0, (max - min) as u32, v));
        r
    }

    /// The idle tick: an aggressive or assisting monster may start a chase,
    /// a fleeing kind may start to flee; otherwise a monster that can move
    /// wanders a few cells now and then.
    pub fn update_idle(&self, mob: &mut Mob, players: &[SeenPlayer], mobs: &[SeenMob])
        ensures
            spec_idle_tick(*old(mob), *final(mob), players@, mobs@),
    {
        let x = mob.pos.x;
        let y = mob.pos.y;
        let chase: Option<u128> = match mob.behavior {
            MobBehavior::Aggressive => closest_player_in_sight(players, mob.spawn_map.as_str(), x, y, mob.sight_range),
            MobBehavior::Assist => first_assist_target(mobs, mob.id, x, y, mob.sight_range),
            MobBehavior::PassiveAssist => {
                if mob.damage_log.len() > 0 {
                    first_assist_target(mobs, mob.id, x, y, mob.sight_range)
                } else {
                    None
                }
            },
            _ => None,
        };
        match chase {
            Some(t) => {
                mob.ai_state = MobAIState::Chase;
                mob.target_id = Some(t);
                return;
            },
            None => {},
        }
        if mob.behavior == MobBehavior::FleeWhenLowHp {
            let p = mob.hp_percent();
            if p <= FLEE_HP_THRESHOLD && p > 0 {
                match some_attacker(&mob.damage_log) {
                    Some(a) => {
                        mob.flee_from = Some(a);
                        mob.ai_state = MobAIState::Flee;
                        return;
                    },
                    None => {},
                }
            }
        }
        if mob.behavior != MobBehavior::Immobile {
            let roll = self.rand_simple();
            if roll < 5 {
                let ox = self.rand_offset(-3, 3);
                let oy = self.rand_offset(-3, 3);
                let nx = moved_coord(x, ox);
                let ny = moved_coord(y, oy);
                proof {
                    assert(spec_wander(x, y, roll as int, ox as int, oy as int) == Some((nx, ny)));
                }
                mob.move_to(nx, ny);
            }
        }
    }

    /// The patrol tick: the monster moves a few cells at random.
    pub fn update_patrol(&self, mob: &mut Mob)
        ensures
            spec_patrol_tick(*old(mob), *final(mob)),
    {
        let x = mob.pos.x;
        let y = mob.pos.y;
        let ox = self.rand_offset(-5, 5);
        let oy = self.rand_offset(-5, 5);
        let nx = moved_coord(x, ox);
        let ny = moved_coord(y, oy);
        proof {
            assert(nx == spec_moved_coord(x, ox as int));
            assert(ny == spec_moved_coord(y, oy as int));
        }
        mob.move_to(nx, ny);
    }

    /// Takes one step along the monster's path.
    fn step_along(&self, mob: &mut Mob)
        ensures
            spec_follow_step(*old(mob), *final(mob), old(mob).path_manager.is_chasing, old(mob).path_manager.target_pos,
                old(mob).path_manager.cached_path@, old(mob).path_manager.current_step as int,
                old(mob).path_manager.path_invalid, spec_map_of(self.spec_maps(), old(mob).map_name@)),
    {
        let map = self.map_database.get(mob.map_name.as_str());
        let path_len = mob.path_manager.cached_path.len();
        assert(mob.path_manager.cached_path@.len() == path_len);
        match mob.path_manager.advance_step() {
            Some(next) => {
                match map {
                    Some(m) => {
                        if m.is_walkable(next.0, next.1) {
                            mob.move_to(next.0, next.1);
                        } else {
                            mob.path_manager.invalidate();
                        }
                    },
                    None => {},
                }
            },
            None => {},
        }
    }

    /// The chase tick, given where the target stands (`None` when the target
    /// is not in the world). A monster that flees when hurt starts fleeing at
    /// low HP. Otherwise, with a target: in attack range it attacks; beyond
    /// chase range, or when the target is gone, it gives up; in between it
    /// (re)computes a path when needed and takes one step along it, giving up
    /// when no path exists.
    #[verifier::rlimit(50)]
    pub fn update_chase(&self, mob: &mut Mob, target_pos: Option<(u16, u16)>)
        ensures
            spec_chase_tick(self.spec_maps(), *old(mob), *final(mob), target_pos),
    {
        if mob.behavior == MobBehavior::FleeWhenLowHp {
            let p = mob.hp_percent();
            if p <= FLEE_HP_THRESHOLD && p > 0 {
                mob.flee_from = mob.target_id;
                mob.ai_state = MobAIState::Flee;
                return;
            }
        }
        if mob.target_id.is_none() {
            return;
        }
        let (tx, ty) = match target_pos {
            Some(t) => t,
            None => {
                mob.ai_state = MobAIState::Return;
                mob.target_id = None;
                mob.path_manager.stop_chase();
                return;
            },
        };
        let x = mob.pos.x;
        let y = mob.pos.y;
        if within(x, y, tx, ty, mob.atk_range) {
            mob.ai_state = MobAIState::Attack;
            return;
        }
        if !within(x, y, tx, ty, mob.chase_range) {
            mob.ai_state = MobAIState::Return;
            mob.target_id = None;
            mob.path_manager.stop_chase();
            return;
        }
        let same_target = match mob.path_manager.target_pos {
            Some(p) => p.0 == tx && p.1 == ty,
            None => false,
        };
        let needs_recalc = !mob.path_manager.is_chasing || !same_target || mob.path_manager.path_invalid;
        let ghost o = *mob;
        let ghost mut witness: Seq<(u16, u16)> = Seq::empty();
        if needs_recalc {
            match self.map_database.get(mob.map_name.as_str()) {
                Some(m) => {
                    match Pathfinder::find_path((x, y), (tx, ty), m, mob.chase_range) {
                        Some(path) => {
                            proof {
                                witness = choose|p: Seq<(u16, u16)>| spec_is_path(*m, (x, y), (tx, ty), p) && path@ == p.drop_first();
                            }
                            mob.path_manager.start_chase((tx, ty));
                            mob.path_manager.set_path(path);
                        },
                        None => {
                            mob.path_manager.stop_chase();
                            mob.ai_state = MobAIState::Return;
                            mob.target_id = None;
                            return;
                        },
                    }
                },
                None => {
                    mob.path_manager.stop_chase();
                    assert(mob.path_manager.cached_path@ =~= Seq::<(u16, u16)>::empty());
                },
            }
        }
        let ghost before = *mob;
        self.step_along(mob);
        proof {
            if needs_recalc && self.spec_maps().contains_key(o.map_name@) {
                let m = self.spec_maps()[o.map_name@];
                assert(spec_is_path(m, (x, y), (tx, ty), witness));
                assert(spec_follow_step(o, *mob, true, Some((tx, ty)), witness.drop_first(), 0, false, spec_map_of(self.spec_maps(), o.map_name@)));
            }
        }
    }

    /// The distance to the target as the skill conditions measure it.
    fn target_distance(&self, mob: &Mob, target_pos: Option<(u16, u16)>) -> (d: u16)
        ensures
            spec_target_distance(mob.pos, target_pos, d),
    {
        match target_pos {
            Some(t) => {
                let n = dist_sq(mob.pos.x, mob.pos.y, t.0, t.1);
                let r = isqrt(n);
                if r >= 65535 {
                    assert(n >= 65535 * 65535) by (nonlinear_arith)
                        requires r >= 65535, r * r <= n;
                    65535
                } else {
                    r as u16
                }
            },
            None => 0,
        }
    }

    /// Tries the monster's skills in order: the first one that is off
    /// cooldown, whose condition holds and whose roll (0..=9999) falls under
    /// its chance fires; its cooldown starts now. Returns its index. The
    /// caller carries out the effect.
    pub fn try_use_skill(&self, mob: &mut Mob, target_pos: Option<(u16, u16)>, now: u64) -> (r: Option<usize>)
        ensures
            match r {
                Some(i) => spec_skill_eligible(*old(mob), i as int, target_pos, now)
                    && spec_skill_fired(*old(mob), *final(mob), i as int, now),
                None => *final(mob) == *old(mob),
            },
            (forall|i: int| 0 <= i < old(mob).skills@.len() ==> !spec_skill_eligible(*old(mob), i, target_pos, now)) ==> r is None,
            forall|i: int| #[trigger] spec_skill_eligible(*old(mob), i, target_pos, now) && old(mob).skills@[i].chance > 9999
                ==> (r matches Some(j) && j <= i),
            r matches Some(i) ==> exists|roll: u32| #[trigger] self.spec_rng().range_roll(0, 9999, roll)
                && roll < old(mob).skills@[i as int].chance,
    {
        if mob.skills.len() == 0 {
            return None;
        }
        let hp_percent = mob.hp_percent();
        let attacker_count = mob.dmglog.len();
        let target_distance = self.target_distance(mob, target_pos);
        let mut i: usize = 0;
        while i < mob.skills.len()
            invariant
                i <= mob.skills@.len(),
                hp_percent == spec_hp_percent(mob.hp, mob.max_hp),
                attacker_count == mob.dmglog@.dom().len(),
                spec_target_distance(mob.pos, target_pos, target_distance),
                *mob == *old(mob),
                forall|j: int| 0 <= j < i ==> !(#[trigger] spec_skill_eligible(*old(mob), j, target_pos, now) && old(mob).skills@[j].chance > 9999),
            decreases mob.skills@.len() - i,
        {
            let skill = mob.skills[i];
            let ready = is_skill_ready(mob, &skill, now);
            let cond = check_skill_condition(&skill, hp_percent, attacker_count, target_distance);
            proof {
                if spec_skill_eligible(*mob, i as int, target_pos, now) {
                    let d = choose|d: u16| spec_target_distance(mob.pos, target_pos, d)
                        && #[trigger] spec_skill_condition(mob.skills@[i as int], spec_hp_percent(mob.hp, mob.max_hp), mob.dmglog@.dom().len() as usize, d);
                    lemma_target_distance_unique(mob.pos, target_pos, d, target_distance);
                    assert(mob.skills@[i as int] == skill);
                    assert(ready && cond);
                }
            }
            if ready && cond {
                let roll = self.rng.rand_range(0, 9999);
                if roll < skill.chance {
                    let ghost o = *mob;
                    assert(mob.skills@[i as int] == skill);
                    assert(spec_skill_condition(o.skills@[i as int], spec_hp_percent(o.hp, o.max_hp),
                        o.dmglog@.dom().len() as usize, target_distance));
                    assert(spec_skill_eligible(o, i as int, target_pos, now));
                    assert(self.spec_rng().range_roll(0, 9999, roll) && roll < o.skills@[i as int].chance);
                    if skill.cooldown_ms > 0 {
                        mob.skill_cooldowns.insert(skill.skill_id, now);
                    }
                    return Some(i);
                }
            }
            i = i + 1;
        }
        None
    }

    /// The attack tick, given where the target stands (`None` when gone). A
    /// monster that flees when hurt starts fleeing at low HP; without a
    /// target nothing happens; a skill may fire; otherwise it attacks a
    /// present target or, the target gone, returns. The caller carries out
    /// skills and attacks (and what a kill leads to).
    pub fn update_attack(&self, mob: &mut Mob, target_pos: Option<(u16, u16)>, now: u64) -> (r: AttackOutcome)
        ensures
            spec_attack_tick(*old(mob), *final(mob), target_pos, now, r),
    {
        if mob.behavior == MobBehavior::FleeWhenLowHp {
            let p = mob.hp_percent();
            if p <= FLEE_HP_THRESHOLD && p > 0 {
                mob.flee_from = mob.target_id;
                mob.ai_state = MobAIState::Flee;
                return AttackOutcome::Fled;
            }
        }
        if mob.target_id.is_none() {
            return AttackOutcome::NoTarget;
        }
        match self.try_use_skill(mob, target_pos, now) {
            Some(i) => return AttackOutcome::SkillUsed(i),
            None => {},
        }
        match target_pos {
            Some(_) => AttackOutcome::NormalAttack,
            None => {
                mob.ai_state = MobAIState::Return;
                mob.target_id = None;
                AttackOutcome::TargetGone
            },
        }
    }

    /// The flee tick, given where the attacker stands (`None` when gone).
    pub fn update_flee(&self, mob: &mut Mob, attacker_pos: Option<(u16, u16)>)
        ensures
            spec_flee_tick(*old(mob), *final(mob), attacker_pos),
    {
        let p = mob.hp_percent();
        if p >= FLEE_RECOVERY_THRESHOLD {
            mob.ai_state = MobAIState::Idle;
            mob.flee_from = None;
            mob.path_manager.stop_chase();
            return;
        }
        if mob.flee_from.is_none() {
            mob.ai_state = MobAIState::Idle;
            return;
        }
        match attacker_pos {
            Some(a) => {
                let x = mob.pos.x;
                let y = mob.pos.y;
                let n = dist_sq(x, y, a.0, a.1);
                let dist = isqrt(n);
                assert((x - a.0) * (x - a.0) >= 0 && (y - a.1) * (y - a.1) >= 0) by (nonlinear_arith);
                if dist > 0 {
                    let mx = flee_move(x, a.0, dist);
                    let my = flee_move(y, a.1, dist);
                    let nx = moved_coord(x, mx);
                    let ny = moved_coord(y, my);
                    mob.move_to(nx, ny);
                }
                proof {
                    assert(spec_is_isqrt(spec_dist_sq(x, y, a.0, a.1), dist as int));
                }
            },
            None => {
                mob.ai_state = MobAIState::Idle;
                mob.flee_from = None;
            },
        }
    }

    /// The dead tick at `now`: the first time, the death is recorded (the
    /// killer, the MVP and the rolled drops are reported and the damage
    /// record cleared); once the respawn time has passed the monster
    /// respawns.
    pub fn update_dead(&self, mob: &mut Mob, now: u64) -> (r: Option<DeathReport>)
        ensures
            spec_dead_tick(self.spec_drop_tables(), *old(mob), *final(mob), now, r),
    {
        let mut report: Option<DeathReport> = None;
        let ghost mut wit: Seq<int> = Seq::empty();
        if !mob.drops_processed {
            mob.drops_processed = true;
            let killer_id: u128 = match mob.target_id {
                Some(k) => k,
                None => 0,
            };
            let mvp_id = MVPResolver::pick_mvp(&mob.damage_log);
            let drops = match self.drop_tables.get(&mob.mob_id) {
                Some(t) => {
                    let d = self.drop_resolver.resolve(t, &self.rng, mob.level, mvp_id);
                    proof {
                        wit = choose|idx: Seq<int>| #[trigger] spec_drops_follow(t.spec_entries(), mvp_id is Some, d@, idx);
                    }
                    d
                },
                None => Vec::new(),
            };
            mob.damage_log.clear();
            report = Some(DeathReport { killer_id, mvp_id, drops });
        }
        let should_respawn = match mob.death_time {
            Some(t) => {
                let elapsed: u64 = if now >= t { now - t } else { 0 };
                elapsed >= mob.respawn_time as u64
            },
            None => false,
        };
        if should_respawn {
            mob.respawn();
        }
        proof {
            if !old(mob).drops_processed && self.spec_drop_tables().contains_key(old(mob).mob_id) {
                let rep = report.unwrap();
                assert(spec_drops_follow(self.spec_drop_tables()[old(mob).mob_id].spec_entries(), rep.mvp_id is Some, rep.drops@, wit));
            }
        }
        report
    }

    /// One tick of the state machine for `mob`, seeing `world` at `now`:
    /// the tick of the state the monster is in.
    pub fn update(&self, mob: &mut Mob, world: &WorldView, now: u64) -> (r: TickOutcome)
        ensures
            ({
                let o = *old(mob);
                let f = *final(mob);
                match o.ai_state {
                    MobAIState::Idle => r is Nothing && spec_idle_tick(o, f, world.players@, world.mobs@),
                    MobAIState::Patrol => r is Nothing && spec_patrol_tick(o, f),
                    MobAIState::Chase => r is Nothing && spec_chase_tick(self.spec_maps(), o, f,
                        match o.target_id { Some(t) => spec_player_pos(world.players@, t), None => None }),
                    MobAIState::Attack => r matches TickOutcome::Attack(a) && spec_attack_tick(o, f,
                        match o.target_id { Some(t) => spec_player_pos(world.players@, t), None => None }, now, a),
                    MobAIState::Return => r is Nothing && f == (Mob { ai_state: MobAIState::Idle, ..o }),
                    MobAIState::Flee => r is Nothing && spec_flee_tick(o, f,
                        match o.flee_from { Some(a) => spec_player_pos(world.players@, a), None => None }),
                    MobAIState::Dead => r matches TickOutcome::Death(d) && spec_dead_tick(self.spec_drop_tables(), o, f, now, d),
                }
            }),
    {
        match mob.ai_state {
            MobAIState::Idle => {
                self.update_idle(mob, world.players.as_slice(), world.mobs.as_slice());
                TickOutcome::Nothing
            },
            MobAIState::Patrol => {
                self.update_patrol(mob);
                TickOutcome::Nothing
            },
            MobAIState::Chase => {
                let tp = match mob.target_id {
                    Some(t) => player_pos(world.players.as_slice(), t),
                    None => None,
                };
                self.update_chase(mob, tp);
                TickOutcome::Nothing
            },
            MobAIState::Attack => {
                let tp = match mob.target_id {
                    Some(t) => player_pos(world.players.as_slice(), t),
                    None => None,
                };
                TickOutcome::Attack(self.update_attack(mob, tp, now))
            },
            MobAIState::Return => {
                self.update_return(mob);
                TickOutcome::Nothing
            },
            MobAIState::Flee => {
                let ap = match mob.flee_from {
                    Some(a) => player_pos(world.players.as_slice(), a),
                    None => None,
                };
                self.update_flee(mob, ap);
                TickOutcome::Nothing
            },
            MobAIState::Dead => TickOutcome::Death(self.update_dead(mob, now)),
        }
    }

    /// The return tick: the monster goes idle.
    pub fn update_return(&self, mob: &mut Mob)
        ensures
            *final(mob) == (Mob { ai_state: MobAIState::Idle, ..*old(mob) }),
    {
        mob.ai_state = MobAIState::Idle;
    }
}

/// A passive monster never starts a chase or a flight on its own: its idle
/// tick keeps its state and target.
pub proof fn lemma_passive_stays_idle(o: Mob, f: Mob, players: Seq<SeenPlayer>, mobs: Seq<SeenMob>)
    requires
        o.behavior == MobBehavior::Passive || o.behavior == MobBehavior::Immobile,
        spec_idle_tick(o, f, players, mobs),
    ensures
        f.ai_state == o.ai_state,
        f.target_id == o.target_id,
        o.behavior == MobBehavior::Immobile ==> f.pos == o.pos,
{
}

/// An idle monster only starts to flee when its HP is low (above 0 and at
/// most the flee threshold), and only from someone who hit it.
pub proof fn lemma_flee_only_when_low(o: Mob, f: Mob, players: Seq<SeenPlayer>, mobs: Seq<SeenMob>)
    requires
        spec_idle_tick(o, f, players, mobs),
        f.ai_state == MobAIState::Flee,
        o.ai_state != MobAIState::Flee,
    ensures
        spec_low_hp(o),
        f.flee_from matches Some(a) && o.damage_log@.contains_key(a),
{
}

/// A fleeing monster whose HP has not yet recovered, with its attacker in
/// sight of the world, keeps fleeing.
pub proof fn lemma_flee_persists_until_recovered(o: Mob, f: Mob, attacker: (u16, u16))
    requires
        o.ai_state == MobAIState::Flee,
        o.flee_from is Some,
        spec_hp_percent(o.hp, o.max_hp) < FLEE_RECOVERY_THRESHOLD,
        spec_flee_tick(o, f, Some(attacker)),
    ensures
        f.ai_state == MobAIState::Flee,
        f.flee_from == o.flee_from,
{
}

proof fn lemma_flee_offset(d: int, dist: int)
    requires
        dist > 0,
        d * d < (dist + 1) * (dist + 1),
    ensures
        d > 0 ==> 0 <= spec_flee_move(d, dist) <= 2,
        d < 0 ==> -2 <= spec_flee_move(d, dist) <= 0,
        d == 0 ==> spec_flee_move(d, dist) == 0,
{
    if d > 0 {
        assert(d <= dist) by (nonlinear_arith)
            requires d * d < (dist + 1) * (dist + 1), d > 0, dist > 0;
        assert(0 <= (2 * d) / dist <= 2) by (nonlinear_arith)
            requires 0 < d <= dist;
    } else if d < 0 {
        assert(-d <= dist) by (nonlinear_arith)
            requires d * d < (dist + 1) * (dist + 1), d < 0, dist > 0;
        assert(0 <= (2 * -d) / dist <= 2) by (nonlinear_arith)
            requires 0 < -d <= dist;
    }
}

proof fn lemma_flee_axis(c: u16, a: u16, dist: int)
    requires
        dist > 0,
        (c - a) * (c - a) < (dist + 1) * (dist + 1),
        c <= 65533,
    ensures
        ({
            let n = spec_moved_coord(c, spec_flee_move(c - a, dist));
            &&& c > a ==> c <= n <= c + 2
            &&& c < a ==> n <= c && c <= n + 2
            &&& c == a ==> n == c
            &&& (n - a) * (n - a) >= (c - a) * (c - a)
        }),
{
    lemma_flee_offset(c - a, dist);
    let n = spec_moved_coord(c, spec_flee_move(c - a, dist));
    if c > a {
        assert((n - a) * (n - a) >= (c - a) * (c - a)) by (nonlinear_arith)
            requires n >= c, c > a;
    } else if c < a {
        assert((n - a) * (n - a) >= (c - a) * (c - a)) by (nonlinear_arith)
            requires n <= c, c < a, n >= 0;
    }
}

/// A fleeing monster that has not recovered steps away from its attacker:
/// on each axis it moves (by at most 2 cells) in the direction from the
/// attacker to itself, not at all along an axis they share, so its distance
/// to the attacker never shrinks. (Positions near the 65535 edge, where the
/// step would wrap around, are left out.)
pub proof fn lemma_flee_steps_away(o: Mob, f: Mob, a: (u16, u16))
    requires
        spec_flee_tick(o, f, Some(a)),
        spec_hp_percent(o.hp, o.max_hp) < FLEE_RECOVERY_THRESHOLD,
        o.flee_from is Some,
        o.pos.x <= 65533,
        o.pos.y <= 65533,
    ensures
        o.pos.x > a.0 ==> o.pos.x <= f.pos.x <= o.pos.x + 2,
        o.pos.x < a.0 ==> f.pos.x <= o.pos.x && o.pos.x <= f.pos.x + 2,
        o.pos.x == a.0 ==> f.pos.x == o.pos.x,
        o.pos.y > a.1 ==> o.pos.y <= f.pos.y <= o.pos.y + 2,
        o.pos.y < a.1 ==> f.pos.y <= o.pos.y && o.pos.y <= f.pos.y + 2,
        o.pos.y == a.1 ==> f.pos.y == o.pos.y,
        spec_dist_sq(f.pos.x, f.pos.y, a.0, a.1) >= spec_dist_sq(o.pos.x, o.pos.y, a.0, a.1),
{
    let n = spec_dist_sq(o.pos.x, o.pos.y, a.0, a.1);
    let dist = choose|dist: int| #[trigger] spec_is_isqrt(n, dist) && (
        if dist == 0 {
            f == o
        } else {
            f == (Mob { pos: MobPosition {
                x: spec_moved_coord(o.pos.x, spec_flee_move(o.pos.x - a.0, dist)),
                y: spec_moved_coord(o.pos.y, spec_flee_move(o.pos.y - a.1, dist)),
            }, ..o })
        });
    if dist == 0 {
        assert(spec_is_isqrt(n, dist));
        assert(n < 1) by (nonlinear_arith)
            requires n < (dist + 1) * (dist + 1), dist == 0;
        assert((o.pos.x - a.0) * (o.pos.x - a.0) >= 0 && (o.pos.y - a.1) * (o.pos.y - a.1) >= 0) by (nonlinear_arith);
        assert(o.pos.x == a.0 && o.pos.y == a.1) by (nonlinear_arith)
            requires n < 1, n == (o.pos.x - a.0) * (o.pos.x - a.0) + (o.pos.y - a.1) * (o.pos.y - a.1);
    } else {
        assert((o.pos.x - a.0) * (o.pos.x - a.0) < (dist + 1) * (dist + 1)) by (nonlinear_arith)
            requires n < (dist + 1) * (dist + 1), n == (o.pos.x - a.0) * (o.pos.x - a.0) + (o.pos.y - a.1) * (o.pos.y - a.1);
        assert((o.pos.y - a.1) * (o.pos.y - a.1) < (dist + 1) * (dist + 1)) by (nonlinear_arith)
            requires n < (dist + 1) * (dist + 1), n == (o.pos.x - a.0) * (o.pos.x - a.0) + (o.pos.y - a.1) * (o.pos.y - a.1);
        lemma_flee_axis(o.pos.x, a.0, dist);
        lemma_flee_axis(o.pos.y, a.1, dist);
    }
}

/// An attacking monster skill hits at least as hard as the monster's own
/// attack (and for at least 1), never harder than its attack scaled by
/// `100 + 20 * level` percent, and each level adds at least a fifth of the
/// attack.
pub proof fn lemma_skill_damage_scales(atk: u16, level: u8)
    ensures
        spec_skill_damage(atk, level) >= atk,
        spec_skill_damage(atk, level) >= 1,
        atk > 0 ==> 100 * spec_skill_damage(atk, level) <= atk * (100 + 20 * level),
        level < 255 ==> spec_skill_damage(atk, (level + 1) as u8) >= spec_skill_damage(atk, level) + atk / 5,
{
    let a = atk as int;
    let l = level as int;
    assert(a * (100 + 20 * l) / 100 >= a) by (nonlinear_arith)
        requires a >= 0, l >= 0;
    assert(a * (100 + 20 * l) / 100 <= 65535 * 5200) by (nonlinear_arith)
        requires 0 <= a <= 65535, 0 <= l <= 255;
    if a > 0 {
        assert(100 * (a * (100 + 20 * l) / 100) <= a * (100 + 20 * l)) by (nonlinear_arith)
            requires a > 0, l >= 0;
    }
    if level < 255 {
        assert(a * (100 + 20 * (l + 1)) / 100 >= a * (100 + 20 * l) / 100 + a / 5) by (nonlinear_arith)
            requires a >= 0, l >= 0;
        assert(a * (100 + 20 * (l + 1)) / 100 <= 65535 * 5200) by (nonlinear_arith)
            requires 0 <= a <= 65535, 0 <= l < 255;
    }
}

/// A healing monster skill restores at least 1 HP, about `5 * level`
/// percent of the monster's maximum HP (rounded down, at least 1 percent),
/// and never less at a higher level. (Amounts past the 32-bit range, where
/// the amount wraps, are left out.)
pub proof fn lemma_skill_heal_scales(max_hp: u32, level: u8)
    requires
        max_hp * (5 * (level + 1)) / 100 <= u32::MAX,
    ensures
        spec_skill_heal_amount(max_hp, level) >= 1,
        level >= 1 ==> (100 * spec_skill_heal_amount(max_hp, level) <= max_hp * (5 * level)
            || spec_skill_heal_amount(max_hp, level) == 1),
        level >= 1 ==> max_hp * (5 * level) < 100 * (spec_skill_heal_amount(max_hp, level) + 1),
        level < 255 ==> spec_skill_heal_amount(max_hp, (level + 1) as u8) >= spec_skill_heal_amount(max_hp, level),
{
    let m = max_hp as int;
    let l = level as int;
    let p0 = if l * 5 < 1 { 1 } else { l * 5 };
    assert(m * p0 / 100 <= m * (5 * (l + 1)) / 100) by (nonlinear_arith)
        requires m >= 0, 1 <= p0 <= 5 * (l + 1);
    assert(0 <= m * p0 / 100) by (nonlinear_arith)
        requires m >= 0, p0 >= 1;
    if level >= 1 {
        assert(100 * (m * (5 * l) / 100) <= m * (5 * l)) by (nonlinear_arith)
            requires m >= 0, l >= 1;
        assert(m * (5 * l) < 100 * (m * (5 * l) / 100 + 1)) by (nonlinear_arith)
            requires m >= 0, l >= 1;
    }
    if level < 255 {
        let p1 = (l + 1) * 5;
        assert(m * p1 / 100 >= m * p0 / 100) by (nonlinear_arith)
            requires m >= 0, 1 <= p0 <= p1;
        assert(0 <= m * p1 / 100);
    }
}

/// A skill never used is ready; a skill last used at `t` is ready from
/// `t + cooldown_ms` on, and not before.
pub proof fn lemma_cooldown_elapses(cooldowns: Map<u16, u64>, skill: MobSkill, now: u64)
    ensures
        !cooldowns.contains_key(skill.skill_id) ==> spec_skill_ready(cooldowns, skill, now),
        cooldowns.contains_key(skill.skill_id) ==> (spec_skill_ready(cooldowns, skill, now)
            <==> now >= cooldowns[skill.skill_id] + skill.cooldown_ms
                || (skill.cooldown_ms == 0 && now < cooldowns[skill.skill_id])),
{
}

/// A monster that has not died never respawns; one that died at `t`
/// respawns from `t + respawn_time` on, and not before.
pub proof fn lemma_respawn_after_delay(death_time: Option<u64>, respawn_time: u32, now: u64)
    ensures
        death_time is None ==> !spec_should_respawn(death_time, respawn_time, now),
        death_time matches Some(t) ==> (spec_should_respawn(death_time, respawn_time, now)
            <==> now >= t + respawn_time || (respawn_time == 0 && now < t)),
{
}

/// Players on other maps are never picked as targets.
pub proof fn lemma_other_maps_ignored(players: Seq<SeenPlayer>, map: Seq<char>, x: u16, y: u16, sight: u16)
    requires
        forall|i: int| 0 <= i < players.len() ==> (#[trigger] players[i]).map_name@ != map,
    ensures
        spec_closest_player_in_sight(players, map, x, y, sight) is None,
    decreases players.len(),
{
    if players.len() > 0 {
        let rest = players.drop_last();
        assert forall|i: int| 0 <= i < rest.len() implies (#[trigger] rest[i]).map_name@ != map by {
            assert(rest[i] == players[i]);
        }
        lemma_other_maps_ignored(rest, map, x, y, sight);
        assert(players.last() == players[players.len() - 1]);
    }
}

/// The player an aggressive monster picks stands on its map within sight,
/// and no player in sight stands nearer; when none is picked, no player is
/// in sight.
pub proof fn lemma_target_is_closest_in_sight(players: Seq<SeenPlayer>, map: Seq<char>, x: u16, y: u16, sight: u16)
    ensures
        match spec_closest_in_sight(players, map, x, y, sight) {
            Some(k) => 0 <= k < players.len() && spec_in_sight(players[k], map, x, y, sight)
                && spec_closest_player_in_sight(players, map, x, y, sight) == Some(players[k].id)
                && forall|j: int| 0 <= j < players.len() && #[trigger] spec_in_sight(players[j], map, x, y, sight) ==>
                    spec_dist_sq(x, y, players[k].x, players[k].y) <= spec_dist_sq(x, y, players[j].x, players[j].y),
            None => spec_closest_player_in_sight(players, map, x, y, sight) is None
                && forall|j: int| 0 <= j < players.len() ==> !#[trigger] spec_in_sight(players[j], map, x, y, sight),
        },
    decreases players.len(),
{
    if players.len() > 0 {
        let rest = players.drop_last();
        lemma_target_is_closest_in_sight(rest, map, x, y, sight);
        let n = players.len() - 1;
        assert(players.last() == players[n]);
        assert forall|j: int| 0 <= j < rest.len() implies #[trigger] rest[j] == players[j] by {}
        match spec_closest_in_sight(rest, map, x, y, sight) {
            Some(b) => {
                assert(rest[b] == players[b]);
                assert forall|j: int| 0 <= j < n && #[trigger] spec_in_sight(players[j], map, x, y, sight) implies
                    spec_dist_sq(x, y, players[b].x, players[b].y) <= spec_dist_sq(x, y, players[j].x, players[j].y) by {
                    assert(rest[j] == players[j]);
                    assert(spec_in_sight(rest[j], map, x, y, sight));
                }
            },
            None => {
                assert forall|j: int| 0 <= j < n implies !#[trigger] spec_in_sight(players[j], map, x, y, sight) by {
                    assert(rest[j] == players[j]);
                    assert(!spec_in_sight(rest[j], map, x, y, sight));
                }
            },
        }
    }
}

} // verus!

verus! {

/// The kind of a skill, as the skill database files it.
#[derive(Debug, Clone, Copy, PartialEq, Eq, Structural)]
pub enum SkillType {
    Attack,
    Debuff,
    Healing,
    Other,
}

/// The amount a rolled drop line gives for the amount roll `a`: `min_amount`
/// when the bounds are equal or out of order, otherwise `min_amount` plus
/// `a` modulo the width of the bounds.
pub open spec fn spec_mob_drop_amount(d: MobDrop, a: u32) -> int {
    if d.min_amount >= d.max_amount {
        d.min_amount as int
    } else {
        d.min_amount + (a % ((d.max_amount - d.min_amount + 1) as u32)) as int
    }
}

/// The (item, amount) pairs that the first `n` lines of a monster's own
/// drop list give for the rolls `rolls` and amount rolls `arolls`: line `i`
/// drops when `rolls[i] mod 10000` is under its chance; in line order.
pub open spec fn spec_mob_rolled_drops(drops: Seq<MobDrop>, rolls: Seq<u32>, arolls: Seq<u32>, n: int) -> Seq<(u32, u16)>
    decreases n,
{
    if n <= 0 {
        Seq::empty()
    } else {
        let d = drops[n - 1];
        let before = spec_mob_rolled_drops(drops, rolls, arolls, n - 1);
        if rolls[n - 1] % 10000 < d.chance {
            before.push((d.item_id, spec_mob_drop_amount(d, arolls[n - 1]) as u16))
        } else {
            before
        }
    }
}

/// `roll` and `aroll` are what rolling drop line `d` with `rng` gave: the
/// roll is one `rng.rand_range(0, u32::MAX)` handed out, and when it drops
/// the line and the line's bounds differ, so is the amount roll; otherwise
/// the amount roll is 0.
pub open spec fn spec_mob_line_rolled_by<R: GameRng>(rng: R, d: MobDrop, roll: u32, aroll: u32) -> bool {
    &&& rng.range_roll(0, u32::MAX, roll)
    &&& (roll % 10000 < d.chance && d.min_amount < d.max_amount) ==> rng.range_roll(0, u32::MAX, aroll)
    &&& !(roll % 10000 < d.chance && d.min_amount < d.max_amount) ==> aroll == 0
}

/// Rolling the first `n` lines of a monster's own drop list drops exactly
/// the lines whose roll, taken modulo 10000, falls under their chance, in
/// line order, each as its line's item in an amount within the line's
/// bounds (exactly `min_amount` when the bounds are equal or out of order):
/// `idx` names the line of each drop.
pub proof fn lemma_mob_drop_iff_roll_under_chance(drops: Seq<MobDrop>, rolls: Seq<u32>, arolls: Seq<u32>, n: int) -> (idx: Seq<int>)
    requires
        0 <= n <= drops.len(),
        forall|i: int| 0 <= i < drops.len() && (#[trigger] drops[i]).min_amount < drops[i].max_amount ==>
            drops[i].max_amount - drops[i].min_amount < u16::MAX,
    ensures
        idx.len() == spec_mob_rolled_drops(drops, rolls, arolls, n).len(),
        forall|k1: int, k2: int| 0 <= k1 < k2 < idx.len() ==> #[trigger] idx[k1] < #[trigger] idx[k2],
        forall|i: int| 0 <= i < n ==> (idx.contains(i) <==> rolls[i] % 10000 < drops[i].chance),
        forall|k: int| 0 <= k < idx.len() ==> {
            let d = drops[#[trigger] idx[k]];
            let p = spec_mob_rolled_drops(drops, rolls, arolls, n)[k];
            &&& 0 <= idx[k] < n
            &&& p.0 == d.item_id
            &&& d.min_amount >= d.max_amount ==> p.1 == d.min_amount
            &&& d.min_amount < d.max_amount ==> d.min_amount <= p.1 <= d.max_amount
        },
    decreases n,
{
    if n <= 0 {
        Seq::empty()
    } else {
        let prev = lemma_mob_drop_iff_roll_under_chance(drops, rolls, arolls, n - 1);
        let d = drops[n - 1];
        let before = spec_mob_rolled_drops(drops, rolls, arolls, n - 1);
        let rolled = spec_mob_rolled_drops(drops, rolls, arolls, n);
        if rolls[n - 1] % 10000 < d.chance {
            let idx = prev.push(n - 1);
            if d.min_amount < d.max_amount {
                let w = (d.max_amount - d.min_amount + 1) as u32;
                assert(arolls[n - 1] % w < w);
            }
            assert forall|k: int| 0 <= k < idx.len() implies {
                let dk = drops[#[trigger] idx[k]];
                let p = rolled[k];
                &&& 0 <= idx[k] < n
                &&& p.0 == dk.item_id
                &&& dk.min_amount >= dk.max_amount ==> p.1 == dk.min_amount
                &&& dk.min_amount < dk.max_amount ==> dk.min_amount <= p.1 <= dk.max_amount
            } by {
                if k < prev.len() {
                    assert(idx[k] == prev[k]);
                    assert(rolled[k] == before[k]);
                }
            }
            assert forall|k1: int, k2: int| 0 <= k1 < k2 < idx.len() implies #[trigger] idx[k1] < #[trigger] idx[k2] by {
                assert(idx[k1] == prev[k1]);
                if k2 < prev.len() {
                    assert(idx[k2] == prev[k2]);
                }
            }
            assert forall|i: int| 0 <= i < n implies (idx.contains(i) <==> rolls[i] % 10000 < drops[i].chance) by {
                if i < n - 1 {
                    if idx.contains(i) {
                        let k = choose|k: int| 0 <= k < idx.len() && idx[k] == i;
                        assert(k < prev.len());
                        assert(prev[k] == i);
                    }
                    if prev.contains(i) {
                        let k = choose|k: int| 0 <= k < prev.len() && prev[k] == i;
                        assert(idx[k] == i);
                    }
                } else {
                    assert(idx[idx.len() - 1] == i);
                }
            }
            idx
        } else {
            assert forall|i: int| 0 <= i < n implies (prev.contains(i) <==> rolls[i] % 10000 < drops[i].chance) by {
                if i == n - 1 && prev.contains(i) {
                    let k = choose|k: int| 0 <= k < prev.len() && prev[k] == i;
                }
            }
            prev
        }
    }
}

/// The items and amounts a monster's own drop list gives for the rolls
/// `rolls` (one per line) and amount rolls `arolls` (one per line, used
/// where the line's bounds differ).
pub fn mob_drops_for_rolls(drops: &Vec<MobDrop>, rolls: &Vec<u32>, arolls: &Vec<u32>) -> (r: Vec<(u32, u16)>)
    requires
        rolls@.len() == drops@.len(),
        arolls@.len() == drops@.len(),
        forall|i: int| 0 <= i < drops@.len() && (#[trigger] drops@[i]).min_amount < drops@[i].max_amount ==>
            drops@[i].max_amount - drops@[i].min_amount < u16::MAX,
    ensures
        r@ == spec_mob_rolled_drops(drops@, rolls@, arolls@, drops@.len() as int),
        forall|i: int| 0 <= i < r@.len() ==> exists|j: int| 0 <= j < drops@.len() && #[trigger] r@[i].1 as int
            == spec_mob_drop_amount(drops@[j], arolls@[j]) && r@[i].0 == drops@[j].item_id,
{
    let mut r: Vec<(u32, u16)> = Vec::new();
    let mut i: usize = 0;
    while i < drops.len()
        invariant
            i <= drops@.len(),
            rolls@.len() == drops@.len(),
            arolls@.len() == drops@.len(),
            forall|i: int| 0 <= i < drops@.len() && (#[trigger] drops@[i]).min_amount < drops@[i].max_amount ==>
                drops@[i].max_amount - drops@[i].min_amount < u16::MAX,
            r@ == spec_mob_rolled_drops(drops@, rolls@, arolls@, i as int),
            forall|k: int| 0 <= k < r@.len() ==> exists|j: int| 0 <= j < drops@.len() && #[trigger] r@[k].1 as int
                == spec_mob_drop_amount(drops@[j], arolls@[j]) && r@[k].0 == drops@[j].item_id,
        decreases drops@.len() - i,
    {
        let d = drops[i];
        if rolls[i] % 10000 < d.chance {
            let amount: u16 = if d.min_amount >= d.max_amount {
                d.min_amount
            } else {
                let span: u32 = (d.max_amount - d.min_amount + 1) as u32;
                d.min_amount + ((arolls[i] % span) as u16)
            };
            assert(amount as int == spec_mob_drop_amount(d, arolls@[i as int]));
            let ghost before = r@;
            r.push((d.item_id, amount));
            proof {
                assert forall|k: int| 0 <= k < r@.len() implies exists|j: int| 0 <= j < drops@.len() && #[trigger] r@[k].1 as int
                    == spec_mob_drop_amount(drops@[j], arolls@[j]) && r@[k].0 == drops@[j].item_id by {
                    if k < before.len() {
                        assert(r@[k] == before[k]);
                    } else {
                        assert(r@[k].1 as int == spec_mob_drop_amount(drops@[i as int], arolls@[i as int]));
                    }
                }
            }
        }
        i = i + 1;
    }
    r
}

/// The drop under `id` lies at `(x, y)` on `map` and is of `item`, in an
/// amount `amount_ok` accepts; said only when no later placed drop took the
/// same id.
pub open spec fn spec_lies(drops: Map<u128, DropItem>, placed: Seq<u128>, k: int, item: u32, x: u16, y: u16, map: Seq<char>,
    amount_ok: spec_fn(u16) -> bool) -> bool {
    (forall|j: int| k < j < placed.len() ==> placed[j] != placed[k]) ==> {
        &&& drops.contains_key(placed[k])
        &&& drops[placed[k]].item_id == item
        &&& amount_ok(drops[placed[k]].amount)
        &&& drops[placed[k]].x == x && drops[placed[k]].y == y
        &&& drops[placed[k]].map_name@ == map
    }
}

/// Someone dealt damage, so there is an MVP.
pub open spec fn spec_has_mvp(log: Map<u128, u64>) -> bool {
    log.dom().len() > 0
}

/// Puts each of `drops` (item and amount) on the ground at `(x, y)` on
/// `map_name`, telling the map's channel, and returns their ids in order.
pub fn place_drops(drops: &Vec<DropItem>, x: u16, y: u16, map_name: &str, drop_manager: &mut DropManager,
    channel_bus: &ChannelBus, ids: &mut EntityIds) -> (placed: Vec<u128>)
    ensures
        placed@.len() == drops@.len(),
        forall|k: int| 0 <= k < placed@.len() ==> spec_lies(final(drop_manager).spec_drops(), placed@, k,
            drops@[k].item_id, x, y, map_name@, |a: u16| a == drops@[k].amount),
        forall|k: u128| !placed@.contains(k) && #[trigger] old(drop_manager).spec_drops().contains_key(k) ==>
            final(drop_manager).spec_drops().contains_key(k) && final(drop_manager).spec_drops()[k] == old(drop_manager).spec_drops()[k],
{
    let mut placed: Vec<u128> = Vec::new();
    let mut i: usize = 0;
    while i < drops.len()
        invariant
            i <= drops@.len(),
            placed@.len() == i,
            forall|k: int| 0 <= k < placed@.len() ==> spec_lies(drop_manager.spec_drops(), placed@, k,
                drops@[k].item_id, x, y, map_name@, |a: u16| a == drops@[k].amount),
            forall|k: u128| !placed@.contains(k) && #[trigger] old(drop_manager).spec_drops().contains_key(k) ==>
                drop_manager.spec_drops().contains_key(k) && drop_manager.spec_drops()[k] == old(drop_manager).spec_drops()[k],
        decreases drops@.len() - i,
    {
        let ghost before = drop_manager.spec_drops();
        let ghost placed_before = placed@;
        let id = drop_manager.add_with_broadcast(drops[i].item_id, drops[i].amount, x, y, map_name, channel_bus, ids);
        placed.push(id);
        proof {
            assert forall|k: int| 0 <= k < placed@.len() implies spec_lies(drop_manager.spec_drops(), placed@, k,
                drops@[k].item_id, x, y, map_name@, |a: u16| a == drops@[k].amount) by {
                if k < i {
                    assert(placed@[k] == placed_before[k]);
                    if forall|j: int| k < j < placed@.len() ==> placed@[j] != placed@[k] {
                        assert(placed@[i as int] != placed@[k]);
                        assert forall|j: int| k < j < placed_before.len() implies placed_before[j] != placed_before[k] by {
                            assert(placed@[j] == placed_before[j]);
                        }
                        assert(spec_lies(before, placed_before, k, drops@[k].item_id, x, y, map_name@, |a: u16| a == drops@[k].amount));
                    }
                }
            }
            assert forall|k: u128| !placed@.contains(k) && #[trigger] old(drop_manager).spec_drops().contains_key(k) implies
                drop_manager.spec_drops().contains_key(k) && drop_manager.spec_drops()[k] == old(drop_manager).spec_drops()[k] by {
                assert(placed@[i as int] == id);
                if placed_before.contains(k) {
                    let j = choose|j: int| 0 <= j < placed_before.len() && placed_before[j] == k;
                    assert(placed@[j] == k);
                }
            }
        }
        i = i + 1;
    }
    placed
}
/// The ids `placed` name, in order, items on the ground of `drops` of the
/// kinds and amounts `pairs` at `(x, y)` on `map` (see `spec_lies`).
pub open spec fn spec_placed_pairs(drops: Map<u128, DropItem>, placed: Seq<u128>, pairs: Seq<(u32, u16)>, x: u16, y: u16, map: Seq<char>) -> bool {
    &&& pairs.len() == placed.len()
    &&& forall|k: int| 0 <= k < placed.len() ==> spec_lies(drops, placed, k, pairs[k].0, x, y, map, |a: u16| a == pairs[k].1)
}

/// Puts items of the given kinds and amounts on the ground at `(x, y)` on
/// `map_name`, telling the map's channel; returns their ids in order.
fn place_rolled(drops: &Vec<(u32, u16)>, x: u16, y: u16, map_name: &str, drop_manager: &mut DropManager,
    channel_bus: &ChannelBus, ids: &mut EntityIds) -> (placed: Vec<u128>)
    ensures
        placed@.len() == drops@.len(),
        forall|k: int| 0 <= k < placed@.len() ==> spec_lies(final(drop_manager).spec_drops(), placed@, k,
            drops@[k].0, x, y, map_name@, |a: u16| a == drops@[k].1),
        forall|k: u128| !placed@.contains(k) && #[trigger] old(drop_manager).spec_drops().contains_key(k) ==>
            final(drop_manager).spec_drops().contains_key(k) && final(drop_manager).spec_drops()[k] == old(drop_manager).spec_drops()[k],
{
    let mut placed: Vec<u128> = Vec::new();
    let mut i: usize = 0;
    while i < drops.len()
        invariant
            i <= drops@.len(),
            placed@.len() == i,
            forall|k: int| 0 <= k < placed@.len() ==> spec_lies(drop_manager.spec_drops(), placed@, k,
                drops@[k].0, x, y, map_name@, |a: u16| a == drops@[k].1),
            forall|k: u128| !placed@.contains(k) && #[trigger] old(drop_manager).spec_drops().contains_key(k) ==>
                drop_manager.spec_drops().contains_key(k) && drop_manager.spec_drops()[k] == old(drop_manager).spec_drops()[k],
        decreases drops@.len() - i,
    {
        let ghost before = drop_manager.spec_drops();
        let ghost placed_before = placed@;
        let id = drop_manager.add_with_broadcast(drops[i].0, drops[i].1, x, y, map_name, channel_bus, ids);
        placed.push(id);
        proof {
            assert forall|k: int| 0 <= k < placed@.len() implies spec_lies(drop_manager.spec_drops(), placed@, k,
                drops@[k].0, x, y, map_name@, |a: u16| a == drops@[k].1) by {
                if k < i {
                    assert(placed@[k] == placed_before[k]);
                    if forall|j: int| k < j < placed@.len() ==> placed@[j] != placed@[k] {
                        assert(placed@[i as int] != placed@[k]);
                        assert forall|j: int| k < j < placed_before.len() implies placed_before[j] != placed_before[k] by {
                            assert(placed@[j] == placed_before[j]);
                        }
                        assert(spec_lies(before, placed_before, k, drops@[k].0, x, y, map_name@, |a: u16| a == drops@[k].1));
                    }
                }
            }
            assert forall|k: u128| !placed@.contains(k) && #[trigger] old(drop_manager).spec_drops().contains_key(k) implies
                drop_manager.spec_drops().contains_key(k) && drop_manager.spec_drops()[k] == old(drop_manager).spec_drops()[k] by {
                assert(placed@[i as int] == id);
                if placed_before.contains(k) {
                    let j = choose|j: int| 0 <= j < placed_before.len() && placed_before[j] == k;
                    assert(placed@[j] == k);
                }
            }
        }
        i = i + 1;
    }
    placed
}


impl<R: GameRng> MobAI<R> {
    /// A skill used on the monster itself: a healing skill restores
    /// `skill_heal_amount(max_hp, level)` HP, up to the maximum; other
    /// kinds have no effect yet, and an unknown skill is skipped.
    pub fn execute_self_skill(&self, mob: &mut Mob, skill: &MobSkill, skill_type: Option<SkillType>)
        requires
            skill_type == Some(SkillType::Healing) ==>
                old(mob).hp + spec_skill_heal_amount(old(mob).max_hp, skill.level) <= u32::MAX,
        ensures
            skill_type == Some(SkillType::Healing) ==> ({
                let sum = old(mob).hp + spec_skill_heal_amount(old(mob).max_hp, skill.level);
                *final(mob) == (Mob { hp: (if sum < old(mob).max_hp { sum } else { old(mob).max_hp as int }) as u32, ..*old(mob) })
            }),
            skill_type != Some(SkillType::Healing) ==> *final(mob) == *old(mob),
    {
        match skill_type {
            Some(SkillType::Healing) => {
                let amount = skill_heal_amount(mob.max_hp, skill.level);
                mob.heal(amount);
            },
            _ => {},
        }
    }

    /// A skill used on the target player: an attack or debuff skill deals
    /// `skill_damage(atk, level)` to a copy of the player taken from
    /// `map_state` (the player kept there is not changed), and the damage is
    /// recorded; when the copy dies, the player's death is told on their
    /// map's channel and the monster goes idle without a target. Other kinds
    /// and unknown skills, or a player not online, have no effect. Returns
    /// whether the copy died.
    pub fn execute_target_skill(&self, mob: &mut Mob, skill: &MobSkill, skill_type: Option<SkillType>, target_id: u128,
        map_state: &MapState, channel_bus: &ChannelBus, ids: &mut EntityIds) -> (killed: bool)
        requires
            old(mob).damage_log@.contains_key(target_id) ==>
                old(mob).damage_log@[target_id] + spec_skill_damage(old(mob).atk, skill.level) <= u64::MAX,
        ensures
            ({
                let o = *old(mob);
                let f = *final(mob);
                let d = spec_skill_damage(o.atk, skill.level);
                let attacks = skill_type == Some(SkillType::Attack) || skill_type == Some(SkillType::Debuff);
                if attacks && map_state.spec_players().contains_key(target_id) {
                    &&& killed == (map_state.spec_players()[target_id].combat.hp <= d)
                    &&& f.damage_log@ == o.damage_log@.insert(target_id,
                        (if o.damage_log@.contains_key(target_id) { o.damage_log@[target_id] + d } else { d as int }) as u64)
                    &&& killed ==> f == (Mob { ai_state: MobAIState::Idle, target_id: None, damage_log: f.damage_log, ..o })
                    &&& !killed ==> f == (Mob { damage_log: f.damage_log, ..o })
                } else {
                    !killed && f == o
                }
            }),
    {
        let attacks = match skill_type {
            Some(SkillType::Attack) => true,
            Some(SkillType::Debuff) => true,
            _ => false,
        };
        if !attacks {
            return false;
        }
        let mut target = match map_state.get_player(target_id) {
            Some(p) => p,
            None => return false,
        };
        let damage = skill_damage(mob.atk, skill.level);
        let killed = target.take_damage(damage);
        let current: u64 = match mob.damage_log.get(&target_id) {
            Some(v) => *v,
            None => 0,
        };
        mob.damage_log.insert(target_id, current + damage as u64);
        if killed {
            let channel_name = map_channel_name(target.map_name.as_str());
            let event = GameEvent::PlayerDeath { player_id: target_id };
            let packet = event.to_packet_bytes(ids);
            channel_bus.publish(channel_name.as_str(), &event, packet);
            mob.ai_state = MobAIState::Idle;
            mob.target_id = None;
        }
        killed
    }

    /// Carries out a skill that fired: on the monster itself or on its target.
    pub fn execute_mob_skill(&self, mob: &mut Mob, skill: &MobSkill, skill_type: Option<SkillType>, target_id: u128,
        map_state: &MapState, channel_bus: &ChannelBus, ids: &mut EntityIds)
        requires
            skill.target == MobSkillTarget::Self_ && skill_type == Some(SkillType::Healing) ==>
                old(mob).hp + spec_skill_heal_amount(old(mob).max_hp, skill.level) <= u32::MAX,
            skill.target == MobSkillTarget::Target && old(mob).damage_log@.contains_key(target_id) ==>
                old(mob).damage_log@[target_id] + spec_skill_damage(old(mob).atk, skill.level) <= u64::MAX,
        ensures
            skill.target == MobSkillTarget::Self_ && skill_type != Some(SkillType::Healing) ==> *final(mob) == *old(mob),
            skill.target == MobSkillTarget::Self_ && skill_type == Some(SkillType::Healing) ==> ({
                let sum = old(mob).hp + spec_skill_heal_amount(old(mob).max_hp, skill.level);
                *final(mob) == (Mob { hp: (if sum < old(mob).max_hp { sum } else { old(mob).max_hp as int }) as u32, ..*old(mob) })
            }),
            skill.target == MobSkillTarget::Target && !((skill_type == Some(SkillType::Attack) || skill_type == Some(SkillType::Debuff))
                && map_state.spec_players().contains_key(target_id)) ==> *final(mob) == *old(mob),
            skill.target == MobSkillTarget::Target && (skill_type == Some(SkillType::Attack) || skill_type == Some(SkillType::Debuff))
                && map_state.spec_players().contains_key(target_id) ==> ({
                let o = *old(mob);
                let f = *final(mob);
                let d = spec_skill_damage(o.atk, skill.level);
                &&& f.damage_log@ == o.damage_log@.insert(target_id,
                    (if o.damage_log@.contains_key(target_id) { o.damage_log@[target_id] + d } else { d as int }) as u64)
                &&& map_state.spec_players()[target_id].combat.hp <= d ==>
                    f == (Mob { ai_state: MobAIState::Idle, target_id: None, damage_log: f.damage_log, ..o })
                &&& map_state.spec_players()[target_id].combat.hp > d ==> f == (Mob { damage_log: f.damage_log, ..o })
            }),
    {
        match skill.target {
            MobSkillTarget::Self_ => self.execute_self_skill(mob, skill, skill_type),
            MobSkillTarget::Target => {
                let _ = self.execute_target_skill(mob, skill, skill_type, target_id, map_state, channel_bus, ids);
            },
        }
    }

    /// Rolls the monster's own drop list (each line once, in order: a roll of
    /// `0..10000` under its chance drops it, in an amount between its bounds)
    /// and puts what drops at the monster's position on its spawn map,
    /// telling the map's channel. Returns the new drops' ids in order.
    pub fn process_drops(&self, mob: &Mob, drop_manager: &mut DropManager, channel_bus: &ChannelBus, ids: &mut EntityIds)
        -> (placed: Vec<u128>)
        requires
            forall|i: int| 0 <= i < mob.drops@.len() && (#[trigger] mob.drops@[i]).min_amount < mob.drops@[i].max_amount ==>
                mob.drops@[i].max_amount - mob.drops@[i].min_amount < u16::MAX,
        ensures
            exists|rolls: Seq<u32>, arolls: Seq<u32>| #[trigger] spec_placed_pairs(final(drop_manager).spec_drops(), placed@,
                spec_mob_rolled_drops(mob.drops@, rolls, arolls, mob.drops@.len() as int), mob.pos.x, mob.pos.y, mob.spawn_map@)
                && rolls.len() == mob.drops@.len() && arolls.len() == mob.drops@.len(),
            exists|rolls: Seq<u32>, arolls: Seq<u32>| #[trigger] spec_placed_pairs(final(drop_manager).spec_drops(), placed@,
                spec_mob_rolled_drops(mob.drops@, rolls, arolls, mob.drops@.len() as int), mob.pos.x, mob.pos.y, mob.spawn_map@)
                && rolls.len() == mob.drops@.len() && arolls.len() == mob.drops@.len()
                && forall|k: int| 0 <= k < mob.drops@.len() ==> #[trigger] spec_mob_line_rolled_by(self.spec_rng(), mob.drops@[k], rolls[k], arolls[k]),
            forall|k: u128| !placed@.contains(k) && #[trigger] old(drop_manager).spec_drops().contains_key(k) ==>
                final(drop_manager).spec_drops().contains_key(k) && final(drop_manager).spec_drops()[k] == old(drop_manager).spec_drops()[k],
    {
        let mut rolls: Vec<u32> = Vec::new();
        let mut arolls: Vec<u32> = Vec::new();
        let mut i: usize = 0;
        while i < mob.drops.len()
            invariant
                i <= mob.drops@.len(),
                rolls@.len() == i,
                arolls@.len() == i,
                forall|k: int| 0 <= k < i ==> #[trigger] spec_mob_line_rolled_by(self.spec_rng(), mob.drops@[k], rolls@[k], arolls@[k]),
            decreases mob.drops@.len() - i,
        {
            let drop = mob.drops[i];
            let roll = self.rng.rand_range(0, u32::MAX);
            let mut aroll: u32 = 0;
            if roll % 10000 < drop.chance && drop.min_amount < drop.max_amount {
                aroll = self.rng.rand_range(0, u32::MAX);
            }
            assert(spec_mob_line_rolled_by(self.spec_rng(), drop, roll, aroll));
            rolls.push(roll);
            arolls.push(aroll);
            i = i + 1;
        }
        let pairs = mob_drops_for_rolls(&mob.drops, &rolls, &arolls);
        let placed = place_rolled(&pairs, mob.pos.x, mob.pos.y, mob.spawn_map.as_str(), drop_manager, channel_bus, ids);
        proof {
            let ps = spec_mob_rolled_drops(mob.drops@, rolls@, arolls@, mob.drops@.len() as int);
            assert(spec_placed_pairs(drop_manager.spec_drops(), placed@, ps, mob.pos.x, mob.pos.y, mob.spawn_map@));
            assert(forall|k: int| 0 <= k < mob.drops@.len() ==> #[trigger] spec_mob_line_rolled_by(self.spec_rng(), mob.drops@[k], rolls@[k], arolls@[k]));
        }
        placed
    }

    /// Resolves the monster's drop table (when it has one) with the MVP of
    /// its damage record, and puts the drops at its position on its spawn
    /// map, telling the map's channel. Returns the new drops' ids in order.
    pub fn process_drops_with_resolver(&self, mob: &Mob, drop_manager: &mut DropManager, channel_bus: &ChannelBus,
        ids: &mut EntityIds) -> (placed: Vec<u128>)
        ensures
            !self.spec_drop_tables().contains_key(mob.mob_id) ==> placed@.len() == 0
                && final(drop_manager).spec_drops() == old(drop_manager).spec_drops(),
            self.spec_drop_tables().contains_key(mob.mob_id) ==> exists|ds: Seq<DropItem>, idx: Seq<int>| {
                &&& #[trigger] spec_drops_follow(self.spec_drop_tables()[mob.mob_id].spec_entries(), spec_has_mvp(mob.damage_log@), ds, idx)
                &&& exists|rolls: Seq<u32>, amounts: Seq<u16>|
                    #[trigger] spec_resolved(self.spec_drop_tables()[mob.mob_id].spec_entries(), spec_has_mvp(mob.damage_log@), rolls, amounts, ds)
                &&& ds.len() == placed@.len()
                &&& forall|k: int| 0 <= k < placed@.len() ==> spec_lies(final(drop_manager).spec_drops(), placed@, k,
                    ds[k].item_id, mob.pos.x, mob.pos.y, mob.spawn_map@, |a: u16| a == ds[k].amount)
            },
            forall|k: u128| !placed@.contains(k) && #[trigger] old(drop_manager).spec_drops().contains_key(k) ==>
                final(drop_manager).spec_drops().contains_key(k) && final(drop_manager).spec_drops()[k] == old(drop_manager).spec_drops()[k],
    {
        let table = match self.drop_tables.get(&mob.mob_id) {
            Some(t) => t,
            None => return Vec::new(),
        };
        let mvp_id = MVPResolver::pick_mvp(&mob.damage_log);
        let drops = self.drop_resolver.resolve(table, &self.rng, mob.level, mvp_id);
        let placed = place_drops(&drops, mob.pos.x, mob.pos.y, mob.spawn_map.as_str(), drop_manager, channel_bus, ids);
        proof {
            let idx = choose|idx: Seq<int>| #[trigger] spec_drops_follow(table.spec_entries(), mvp_id is Some, drops@, idx);
            assert(spec_has_mvp(mob.damage_log@) == (mvp_id is Some));
            assert(spec_drops_follow(self.spec_drop_tables()[mob.mob_id].spec_entries(), spec_has_mvp(mob.damage_log@), drops@, idx));
        }
        placed
    }
}

} // verus!
