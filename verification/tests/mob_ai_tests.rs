use std::cell::Cell;

use std::collections::HashMap;

use ro_world::map::channel::{ChannelBus, EntityIds};
use ro_world::map::data::MapDatabase;
use ro_world::map::drop_item::DropManager;
use ro_world::map::map_state::MapState;
use ro_world::map::player::{Attributes, CombatStats, Economy, LevelStats, Player, PlayerState, Position, SavePoint};
use ro_world::mob::ai::{
    check_skill_condition, is_skill_ready, skill_damage, skill_heal_amount, AttackOutcome, MobAI, SeenMob, SeenPlayer,
    SkillType, TickOutcome, WorldView,
};
use ro_world::mob::data::{Mob, MobAIState, MobBehavior, MobDrop, MobSkill, MobSkillCondition, MobSkillTarget};
use ro_world::mob::droptable::{DropTableEntry, MobDropTable};
use ro_world::rng::GameRng;

const NOW: u64 = 1_000_000;

/// A scripted random source: hands out `values` in turn, each clamped into
/// the asked range.
struct MockRng {
    values: Vec<u32>,
    index: Cell<usize>,
}

impl MockRng {
    fn new(values: Vec<u32>) -> Self {
        MockRng { values, index: Cell::new(0) }
    }

    fn next(&self) -> u32 {
        let i = self.index.get();
        self.index.set(i.wrapping_add(1));
        if self.values.is_empty() {
            0
        } else {
            self.values[i % self.values.len()]
        }
    }
}

impl GameRng for MockRng {
    fn rand_range(&self, min: u32, max: u32) -> u32 {
        self.next().min(max).max(min)
    }

    fn rand_bp(&self, _chance: u32) -> u32 {
        self.next()
    }
}

fn create_test_mob_ai(values: Vec<u32>) -> MobAI<MockRng> {
    MobAI::new(MapDatabase::new(), MockRng::new(values))
}

fn create_test_mob(position: (u16, u16), level: u16) -> Mob {
    let mut mob = Mob::new(1001, position.0, position.1, "test_map");
    mob.name = "TestMob".to_string();
    mob.level = level;
    mob.hp = 500;
    mob.max_hp = 500;
    mob.atk = 30;
    mob.hit = 10;
    mob.flee = 5;
    mob.behavior = MobBehavior::Aggressive;
    mob.sight_range = 10;
    mob.chase_range = 20;
    mob.base_exp = 10;
    mob.job_exp = 5;
    mob.zeny = Some(100);
    mob
}

fn create_test_player(position: (u16, u16), id: u128) -> SeenPlayer {
    SeenPlayer { id, map_name: "test_map".to_string(), x: position.0, y: position.1 }
}

fn world(players: Vec<SeenPlayer>, mobs: Vec<SeenMob>) -> WorldView {
    WorldView { players, mobs }
}

fn create_test_mob_with_skills(position: (u16, u16), level: u16, skills: Vec<MobSkill>) -> Mob {
    let mut mob = create_test_mob(position, level);
    mob.mob_id = 1002;
    mob.name = "SkilledMob".to_string();
    mob.ai_state = MobAIState::Attack;
    mob.skills = skills;
    mob
}

fn create_flee_mob(position: (u16, u16), hp: u32, max_hp: u32) -> Mob {
    let mut mob = create_test_mob(position, 5);
    mob.name = "FleeMob".to_string();
    mob.hp = hp;
    mob.max_hp = max_hp;
    mob.behavior = MobBehavior::FleeWhenLowHp;
    mob
}

fn create_assist_mob(position: (u16, u16), behavior: MobBehavior) -> Mob {
    let mut mob = create_test_mob(position, 5);
    mob.name = "AssistMob".to_string();
    mob.behavior = behavior;
    mob
}

fn seen(mob: &Mob) -> SeenMob {
    SeenMob { id: mob.id, x: mob.pos.x, y: mob.pos.y, ai_state: mob.ai_state, target_id: mob.target_id }
}

fn skill(skill_id: u16, level: u8, chance: u32, target: MobSkillTarget, condition: MobSkillCondition, condition_value: u32, cooldown_ms: u64) -> MobSkill {
    MobSkill { skill_id, level, chance, target, condition, condition_value, cooldown_ms }
}

#[test]
fn test_rand_offset_range() {
    let ai = create_test_mob_ai(vec![0, 1, 2, 3, 4, 5]);
    assert_eq!(ai.rand_offset(-3, 3), -3);
    assert_eq!(ai.rand_offset(-3, 3), -2);
}

#[test]
fn test_rand_simple_range() {
    let ai = create_test_mob_ai(vec![0, 99, 50]);
    assert_eq!(ai.rand_simple(), 0);
    assert_eq!(ai.rand_simple(), 99);
    assert_eq!(ai.rand_simple(), 50);
}

#[test]
fn idle_to_chase_when_player_in_sight() {
    let mut mob = create_test_mob((100, 100), 5);
    let player = create_test_player((105, 105), 7);
    assert_eq!(mob.ai_state, MobAIState::Idle);
    let ai = create_test_mob_ai(vec![0]);
    ai.update(&mut mob, &world(vec![player], vec![]), NOW);
    assert_eq!(mob.ai_state, MobAIState::Chase);
    assert_eq!(mob.target_id, Some(7));
}

#[test]
fn passive_mob_stays_idle_when_player_in_sight() {
    let mut mob = create_test_mob((100, 100), 5);
    mob.name = "PassiveMob".to_string();
    mob.behavior = MobBehavior::Passive;
    let player = create_test_player((105, 105), 7);
    let ai = create_test_mob_ai(vec![10]);
    ai.update(&mut mob, &world(vec![player], vec![]), NOW);
    assert_eq!(mob.ai_state, MobAIState::Idle);
    assert_eq!(mob.target_id, None);
}

#[test]
fn idle_stays_idle_when_no_player_in_sight() {
    let mut mob = create_test_mob((100, 100), 5);
    let player = create_test_player((200, 200), 7);
    let ai = create_test_mob_ai(vec![10]);
    ai.update(&mut mob, &world(vec![player], vec![]), NOW);
    assert_eq!(mob.ai_state, MobAIState::Idle);
}

#[test]
fn chase_to_attack_in_range() {
    let mut mob = create_test_mob((100, 100), 5);
    let player = create_test_player((100, 101), 7);
    mob.ai_state = MobAIState::Chase;
    mob.target_id = Some(7);
    let ai = create_test_mob_ai(vec![0]);
    ai.update(&mut mob, &world(vec![player], vec![]), NOW);
    assert_eq!(mob.ai_state, MobAIState::Attack);
}

#[test]
fn chase_to_return_when_player_out_of_sight() {
    let mut mob = create_test_mob((100, 100), 5);
    let player = create_test_player((200, 200), 7);
    mob.ai_state = MobAIState::Chase;
    mob.target_id = Some(7);
    let ai = create_test_mob_ai(vec![0]);
    ai.update(&mut mob, &world(vec![player], vec![]), NOW);
    assert_eq!(mob.ai_state, MobAIState::Return);
    assert_eq!(mob.target_id, None);
}

#[test]
fn chase_returns_when_target_disappears() {
    let mut mob = create_test_mob((100, 100), 5);
    mob.ai_state = MobAIState::Chase;
    mob.target_id = Some(7);
    let ai = create_test_mob_ai(vec![0]);
    ai.update(&mut mob, &world(vec![], vec![]), NOW);
    assert_eq!(mob.ai_state, MobAIState::Return);
    assert_eq!(mob.target_id, None);
}

#[test]
fn attack_to_dead_when_hp_zero() {
    let mut mob = create_test_mob((100, 100), 5);
    let player = create_test_player((100, 101), 7);
    mob.target_id = Some(7);
    mob.hp = 0;
    mob.ai_state = MobAIState::Dead;
    mob.death_time = Some(NOW);
    let ai = create_test_mob_ai(vec![0]);
    let r = ai.update(&mut mob, &world(vec![player], vec![]), NOW);
    assert_eq!(mob.ai_state, MobAIState::Dead);
    match r {
        TickOutcome::Death(Some(report)) => {
            assert_eq!(report.killer_id, 7);
            assert_eq!(report.mvp_id, None);
            assert!(report.drops.is_empty());
        },
        _ => panic!("a dead monster reports its death once"),
    }
    assert!(mob.drops_processed);
}

#[test]
fn attack_to_return_when_target_removed() {
    let mut mob = create_test_mob((100, 100), 5);
    mob.ai_state = MobAIState::Attack;
    mob.target_id = Some(7);
    let ai = create_test_mob_ai(vec![0]);
    let r = ai.update(&mut mob, &world(vec![], vec![]), NOW);
    assert!(matches!(r, TickOutcome::Attack(AttackOutcome::TargetGone)));
    assert_eq!(mob.ai_state, MobAIState::Return);
}

#[test]
fn return_transitions_to_idle() {
    let mut mob = create_test_mob((100, 100), 5);
    mob.ai_state = MobAIState::Return;
    let ai = create_test_mob_ai(vec![0]);
    ai.update(&mut mob, &world(vec![], vec![]), NOW);
    assert_eq!(mob.ai_state, MobAIState::Idle);
}

#[test]
fn mob_prioritizes_closest_player() {
    let mut mob = create_test_mob((100, 100), 5);
    let player1 = create_test_player((105, 105), 1);
    let player2 = create_test_player((150, 150), 2);
    let ai = create_test_mob_ai(vec![0]);
    ai.update(&mut mob, &world(vec![player1, player2], vec![]), NOW);
    assert_eq!(mob.ai_state, MobAIState::Chase);
    assert_eq!(mob.target_id, Some(1));
}

#[test]
fn mob_picks_any_player_in_sight() {
    let mut mob = create_test_mob((100, 100), 5);
    let player = create_test_player((108, 105), 7);
    let ai = create_test_mob_ai(vec![0]);
    ai.update(&mut mob, &world(vec![player], vec![]), NOW);
    assert_eq!(mob.ai_state, MobAIState::Chase);
    assert_eq!(mob.target_id, Some(7));
}

#[test]
fn mob_ignores_players_on_different_map() {
    let mut mob = create_test_mob((100, 100), 5);
    let player = SeenPlayer { id: 7, map_name: "other_map".to_string(), x: 105, y: 105 };
    let ai = create_test_mob_ai(vec![50]);
    ai.update(&mut mob, &world(vec![player], vec![]), NOW);
    assert_eq!(mob.ai_state, MobAIState::Idle);
}

#[test]
fn test_check_skill_condition_any() {
    let s = skill(5, 1, 1000, MobSkillTarget::Target, MobSkillCondition::Any, 0, 0);
    assert!(check_skill_condition(&s, 100, 0, 0));
    assert!(check_skill_condition(&s, 50, 3, 10));
    assert!(check_skill_condition(&s, 0, 0, 0));
}

#[test]
fn test_check_skill_condition_hp_certain() {
    let s = skill(28, 3, 1000, MobSkillTarget::Self_, MobSkillCondition::HpCertain, 50, 10000);
    assert!(!check_skill_condition(&s, 100, 0, 0));
    assert!(!check_skill_condition(&s, 51, 0, 0));
    assert!(check_skill_condition(&s, 50, 0, 0));
    assert!(check_skill_condition(&s, 25, 0, 0));
    assert!(check_skill_condition(&s, 1, 0, 0));
}

#[test]
fn test_is_skill_ready_no_cooldown() {
    let mob = create_test_mob_with_skills((100, 100), 5, vec![
        skill(5, 1, 1000, MobSkillTarget::Target, MobSkillCondition::Any, 0, 5000),
    ]);
    assert!(is_skill_ready(&mob, &mob.skills[0], NOW));
}

#[test]
fn test_is_skill_ready_on_cooldown() {
    let mut mob = create_test_mob_with_skills((100, 100), 5, vec![
        skill(5, 1, 1000, MobSkillTarget::Target, MobSkillCondition::Any, 0, 60000),
    ]);
    mob.skill_cooldowns.insert(5, NOW);
    assert!(!is_skill_ready(&mob, &mob.skills[0], NOW));
    assert!(is_skill_ready(&mob, &mob.skills[0], NOW + 60000));
}

#[test]
fn test_try_use_skill_no_skills() {
    let ai = create_test_mob_ai(vec![]);
    let mut mob = create_test_mob_with_skills((100, 100), 5, vec![]);
    assert_eq!(ai.try_use_skill(&mut mob, Some((100, 101)), NOW), None);
}

#[test]
fn test_try_use_skill_triggers_on_high_chance() {
    let ai = create_test_mob_ai(vec![0]);
    let mut mob = create_test_mob_with_skills((100, 100), 5, vec![
        skill(5, 3, 10000, MobSkillTarget::Target, MobSkillCondition::Any, 0, 0),
    ]);
    assert_eq!(ai.try_use_skill(&mut mob, Some((100, 101)), NOW), Some(0));
}

#[test]
fn test_try_use_skill_does_not_trigger_on_zero_chance() {
    let ai = create_test_mob_ai(vec![5000]);
    let mut mob = create_test_mob_with_skills((100, 100), 5, vec![
        skill(5, 3, 0, MobSkillTarget::Target, MobSkillCondition::Any, 0, 0),
    ]);
    assert_eq!(ai.try_use_skill(&mut mob, Some((100, 101)), NOW), None);
}

#[test]
fn test_try_use_skill_hp_condition_blocks() {
    let ai = create_test_mob_ai(vec![0]);
    let mut mob = create_test_mob_with_skills((100, 100), 5, vec![
        skill(28, 3, 10000, MobSkillTarget::Self_, MobSkillCondition::HpCertain, 50, 0),
    ]);
    assert_eq!(ai.try_use_skill(&mut mob, Some((100, 101)), NOW), None);
    mob.hp = 200;
    assert_eq!(ai.try_use_skill(&mut mob, Some((100, 101)), NOW), Some(0));
}

#[test]
fn test_try_use_skill_cooldown_blocks() {
    let ai = create_test_mob_ai(vec![0]);
    let mut mob = create_test_mob_with_skills((100, 100), 5, vec![
        skill(5, 3, 10000, MobSkillTarget::Target, MobSkillCondition::Any, 0, 60000),
    ]);
    assert_eq!(ai.try_use_skill(&mut mob, Some((100, 101)), NOW), Some(0));
    assert_eq!(ai.try_use_skill(&mut mob, Some((100, 101)), NOW), None);
}

#[test]
fn test_update_attack_uses_skill_before_normal_attack() {
    let ai = create_test_mob_ai(vec![0]);
    let mut mob = create_test_mob_with_skills((100, 100), 5, vec![
        skill(1, 3, 10000, MobSkillTarget::Target, MobSkillCondition::Any, 0, 5000),
    ]);
    mob.target_id = Some(7);
    let r = ai.update_attack(&mut mob, Some((100, 101)), NOW);
    assert_eq!(r, AttackOutcome::SkillUsed(0));
    assert!(mob.skill_cooldowns.contains_key(&1));
    assert!(skill_damage(mob.atk, mob.skills[0].level) > 0);
    // With the skill cooling down the next tick is a normal attack.
    let r2 = ai.update_attack(&mut mob, Some((100, 101)), NOW + 1);
    assert_eq!(r2, AttackOutcome::NormalAttack);
}

#[test]
fn test_check_skill_condition_rude_attacked_with_multiple_attackers() {
    let s = skill(100, 1, 10000, MobSkillTarget::Target, MobSkillCondition::RudeAttacked, 0, 0);
    assert!(check_skill_condition(&s, 100, 2, 0));
    assert!(check_skill_condition(&s, 100, 3, 0));
}

#[test]
fn test_check_skill_condition_rude_attacked_with_single_attacker() {
    let s = skill(100, 1, 10000, MobSkillTarget::Target, MobSkillCondition::RudeAttacked, 0, 0);
    assert!(!check_skill_condition(&s, 100, 1, 0));
    assert!(!check_skill_condition(&s, 100, 0, 0));
}

#[test]
fn test_check_skill_condition_long_range_far_target() {
    let s = skill(100, 1, 10000, MobSkillTarget::Target, MobSkillCondition::LongRange, 0, 0);
    assert!(check_skill_condition(&s, 100, 0, 4));
    assert!(check_skill_condition(&s, 100, 0, 10));
    assert!(check_skill_condition(&s, 100, 0, 100));
}

#[test]
fn test_check_skill_condition_long_range_close_target() {
    let s = skill(100, 1, 10000, MobSkillTarget::Target, MobSkillCondition::LongRange, 0, 0);
    assert!(!check_skill_condition(&s, 100, 0, 0));
    assert!(!check_skill_condition(&s, 100, 0, 1));
    assert!(!check_skill_condition(&s, 100, 0, 3));
}

#[test]
fn flee_mob_stays_idle_when_hp_above_threshold() {
    let mut mob = create_flee_mob((100, 100), 375, 500);
    let player = create_test_player((105, 105), 7);
    mob.damage_log.insert(7, 100);
    let ai = create_test_mob_ai(vec![10]);
    ai.update(&mut mob, &world(vec![player], vec![]), NOW);
    assert_eq!(mob.ai_state, MobAIState::Idle);
}

#[test]
fn flee_mob_enters_flee_when_hp_low() {
    let mut mob = create_flee_mob((100, 100), 100, 500);
    let player = create_test_player((105, 105), 7);
    mob.damage_log.insert(7, 100);
    let ai = create_test_mob_ai(vec![10]);
    ai.update(&mut mob, &world(vec![player], vec![]), NOW);
    assert_eq!(mob.ai_state, MobAIState::Flee);
    assert_eq!(mob.flee_from, Some(7));
}

#[test]
fn flee_mob_chase_transitions_to_flee_when_hp_low() {
    let mut mob = create_flee_mob((100, 100), 100, 500);
    let player = create_test_player((105, 105), 7);
    mob.ai_state = MobAIState::Chase;
    mob.target_id = Some(7);
    let ai = create_test_mob_ai(vec![0]);
    ai.update(&mut mob, &world(vec![player], vec![]), NOW);
    assert_eq!(mob.ai_state, MobAIState::Flee);
    assert_eq!(mob.flee_from, Some(7));
}

#[test]
fn flee_mob_attack_transitions_to_flee_when_hp_low() {
    let mut mob = create_flee_mob((100, 100), 100, 500);
    let player = create_test_player((100, 101), 7);
    mob.ai_state = MobAIState::Attack;
    mob.target_id = Some(7);
    let ai = create_test_mob_ai(vec![0]);
    ai.update(&mut mob, &world(vec![player], vec![]), NOW);
    assert_eq!(mob.ai_state, MobAIState::Flee);
}

#[test]
fn flee_mob_moves_away_from_attacker() {
    let mut mob = create_flee_mob((100, 100), 100, 500);
    let player = create_test_player((103, 100), 7);
    mob.ai_state = MobAIState::Flee;
    mob.flee_from = Some(7);
    let ai = create_test_mob_ai(vec![0]);
    ai.update(&mut mob, &world(vec![player], vec![]), NOW);
    let (new_x, new_y) = mob.get_position();
    assert!(new_x < 100, "the monster should move away to the left, now at ({}, {})", new_x, new_y);
    assert_eq!((new_x, new_y), (98, 100));
}

#[test]
fn flee_mob_recovers_when_hp_restored() {
    let mut mob = create_flee_mob((100, 100), 100, 500);
    let player = create_test_player((103, 100), 7);
    mob.ai_state = MobAIState::Flee;
    mob.flee_from = Some(7);
    mob.hp = 300;
    let ai = create_test_mob_ai(vec![0]);
    ai.update(&mut mob, &world(vec![player], vec![]), NOW);
    assert_eq!(mob.ai_state, MobAIState::Idle);
    assert_eq!(mob.flee_from, None);
}

#[test]
fn flee_mob_stays_flee_when_hp_below_recovery() {
    let mut mob = create_flee_mob((100, 100), 100, 500);
    let player = create_test_player((103, 100), 7);
    mob.ai_state = MobAIState::Flee;
    mob.flee_from = Some(7);
    mob.hp = 200;
    let ai = create_test_mob_ai(vec![0]);
    ai.update(&mut mob, &world(vec![player], vec![]), NOW);
    assert_eq!(mob.ai_state, MobAIState::Flee);
}

#[test]
fn assist_mob_chases_attacker_of_nearby_mob() {
    let mut assist_mob = create_assist_mob((100, 100), MobBehavior::Assist);
    let mut other_mob = create_test_mob((105, 105), 5);
    let player = create_test_player((106, 106), 7);
    other_mob.ai_state = MobAIState::Chase;
    other_mob.target_id = Some(7);
    let ai = create_test_mob_ai(vec![10]);
    ai.update(&mut assist_mob, &world(vec![player], vec![seen(&other_mob)]), NOW);
    assert_eq!(assist_mob.ai_state, MobAIState::Chase);
    assert_eq!(assist_mob.target_id, Some(7));
}

#[test]
fn assist_mob_ignores_distant_mob() {
    let mut assist_mob = create_assist_mob((100, 100), MobBehavior::Assist);
    let mut other_mob = create_test_mob((200, 200), 5);
    let player = create_test_player((201, 201), 7);
    other_mob.ai_state = MobAIState::Chase;
    other_mob.target_id = Some(7);
    let ai = create_test_mob_ai(vec![10]);
    ai.update(&mut assist_mob, &world(vec![player], vec![seen(&other_mob)]), NOW);
    assert_eq!(assist_mob.ai_state, MobAIState::Idle);
}

#[test]
fn passive_assist_mob_chases_after_being_attacked() {
    let mut assist_mob = create_assist_mob((100, 100), MobBehavior::PassiveAssist);
    let mut other_mob = create_test_mob((105, 105), 5);
    let player = create_test_player((106, 106), 7);
    other_mob.ai_state = MobAIState::Chase;
    other_mob.target_id = Some(7);
    assist_mob.damage_log.insert(7, 50);
    let ai = create_test_mob_ai(vec![10]);
    ai.update(&mut assist_mob, &world(vec![player], vec![seen(&other_mob)]), NOW);
    assert_eq!(assist_mob.ai_state, MobAIState::Chase);
    assert_eq!(assist_mob.target_id, Some(7));
}

#[test]
fn passive_assist_mob_stays_idle_without_damage() {
    let mut assist_mob = create_assist_mob((100, 100), MobBehavior::PassiveAssist);
    let mut other_mob = create_test_mob((105, 105), 5);
    let player = create_test_player((106, 106), 7);
    other_mob.ai_state = MobAIState::Chase;
    other_mob.target_id = Some(7);
    let ai = create_test_mob_ai(vec![10]);
    ai.update(&mut assist_mob, &world(vec![player], vec![seen(&other_mob)]), NOW);
    assert_eq!(assist_mob.ai_state, MobAIState::Idle);
}

#[test]
fn idle_monster_wanders_on_a_low_roll() {
    let mut mob = create_test_mob((100, 100), 5);
    mob.behavior = MobBehavior::Passive;
    // Roll 0 (< 5) makes it wander; offsets 0 and 6 give -3 and +3.
    let ai = create_test_mob_ai(vec![0, 0, 6]);
    ai.update(&mut mob, &world(vec![], vec![]), NOW);
    assert_eq!(mob.get_position(), (97, 103));
    assert_eq!(mob.ai_state, MobAIState::Idle);
}

#[test]
fn immobile_monster_never_wanders() {
    let mut mob = create_test_mob((100, 100), 5);
    mob.behavior = MobBehavior::Immobile;
    let ai = create_test_mob_ai(vec![0]);
    ai.update(&mut mob, &world(vec![], vec![]), NOW);
    assert_eq!(mob.get_position(), (100, 100));
}

#[test]
fn dead_monster_respawns_after_its_respawn_time() {
    let mut mob = create_test_mob((100, 100), 5);
    mob.move_to(90, 90);
    mob.hp = 0;
    mob.ai_state = MobAIState::Dead;
    mob.death_time = Some(NOW);
    mob.damage_log.insert(3, 40);
    mob.damage_log.insert(4, 90);
    let ai = create_test_mob_ai(vec![0]);
    match ai.update(&mut mob, &world(vec![], vec![]), NOW + 1000) {
        TickOutcome::Death(Some(report)) => assert_eq!(report.mvp_id, Some(4)),
        _ => panic!("the first dead tick reports"),
    }
    assert!(mob.damage_log.is_empty());
    match ai.update(&mut mob, &world(vec![], vec![]), NOW + 60000) {
        TickOutcome::Death(None) => {},
        _ => panic!("later dead ticks report nothing"),
    }
    assert_eq!(mob.ai_state, MobAIState::Idle);
    assert_eq!(mob.hp, 500);
    assert_eq!(mob.get_position(), (100, 100));
}

fn online_player(id: u128, hp: u32) -> Player {
    Player {
        id,
        char_id: 1,
        account_id: 1,
        name: "Target".to_string(),
        map_name: "test_map".to_string(),
        combat: CombatStats {
            hp,
            max_hp: 1000,
            sp: 0,
            max_sp: 0,
            state: PlayerState::Alive,
            in_combat: false,
            is_sitting: false,
            walk_speed: 150,
            direction: 0,
        },
        pos: Position { x: 100, y: 101 },
        level: LevelStats { base_level: 1, job_level: 1, base_exp: 0, job_exp: 0, status_point: 0, skill_point: 0 },
        attrs: Attributes { str: 1, agi: 1, vit: 1, int_: 1, dex: 1, luk: 1 },
        economy: Economy { zeny: 0, current_weight: 0, max_weight: 2000, job: 0, shop_id: None, group_id: 0 },
        save_point: SavePoint { map: "test_map".to_string(), x: 1, y: 1 },
        party_id: None,
        guild_id: None,
    }
}

#[test]
fn healing_skill_restores_a_share_of_max_hp() {
    let ai = create_test_mob_ai(vec![0]);
    let mut mob = create_test_mob((100, 100), 5);
    mob.hp = 100;
    let heal = skill(28, 3, 10000, MobSkillTarget::Self_, MobSkillCondition::Any, 0, 0);
    assert_eq!(skill_heal_amount(500, 3), 75);
    ai.execute_self_skill(&mut mob, &heal, Some(SkillType::Healing));
    assert_eq!(mob.hp, 175);
    ai.execute_self_skill(&mut mob, &heal, Some(SkillType::Other));
    assert_eq!(mob.hp, 175);
    ai.execute_self_skill(&mut mob, &heal, None);
    assert_eq!(mob.hp, 175);
    mob.hp = 490;
    ai.execute_self_skill(&mut mob, &heal, Some(SkillType::Healing));
    assert_eq!(mob.hp, 500);
}

#[test]
fn attack_skill_records_damage_and_reports_a_kill() {
    let ai = create_test_mob_ai(vec![0]);
    let mut mob = create_test_mob((100, 100), 5);
    mob.ai_state = MobAIState::Attack;
    mob.target_id = Some(7);
    let bash = skill(5, 5, 10000, MobSkillTarget::Target, MobSkillCondition::Any, 0, 0);
    // 30 * (100 + 100) / 100
    assert_eq!(skill_damage(30, 5), 60);
    let mut state = MapState::new();
    state.add_player(online_player(7, 1000));
    let bus = ChannelBus::new();
    let mut ids = EntityIds::new();
    assert!(!ai.execute_target_skill(&mut mob, &bash, Some(SkillType::Attack), 7, &state, &bus, &mut ids));
    assert_eq!(mob.damage_log.get(&7), Some(&60));
    assert_eq!(mob.ai_state, MobAIState::Attack);
    let mut weak = MapState::new();
    weak.add_player(online_player(7, 60));
    assert!(ai.execute_target_skill(&mut mob, &bash, Some(SkillType::Debuff), 7, &weak, &bus, &mut ids));
    assert_eq!(mob.damage_log.get(&7), Some(&120));
    assert_eq!(mob.ai_state, MobAIState::Idle);
    assert_eq!(mob.target_id, None);
    // The player kept in the map state is not changed.
    assert_eq!(weak.get_player(7).unwrap().hp(), 60);
    // Not online, or not an attack: nothing happens.
    assert!(!ai.execute_target_skill(&mut mob, &bash, Some(SkillType::Attack), 8, &state, &bus, &mut ids));
    assert!(!ai.execute_target_skill(&mut mob, &bash, Some(SkillType::Healing), 7, &state, &bus, &mut ids));
    assert_eq!(mob.damage_log.get(&7), Some(&120));
}

#[test]
fn legacy_drop_list_rolls_each_line() {
    // Rolls: 0 (< 5000, drops), then 3 for the amount (2 + 3 % 4 = 5),
    // then 9999 (no drop for the second line).
    let ai = create_test_mob_ai(vec![0, 3, 9999]);
    let mut mob = create_test_mob((30, 40), 5);
    mob.spawn_map = "prt_fild08.gat".to_string();
    mob.drops = vec![MobDrop::with_amount(909, 2, 5, 5000), MobDrop::new(512, 100)];
    let mut dm = DropManager::new();
    let bus = ChannelBus::new();
    let mut ids = EntityIds::new();
    let placed = ai.process_drops(&mob, &mut dm, &bus, &mut ids);
    assert_eq!(placed.len(), 1);
    let d = dm.pickup(placed[0]).unwrap();
    assert_eq!(d.item_id, 909);
    assert_eq!(d.amount, 5);
    assert_eq!((d.x, d.y), (30, 40));
    assert_eq!(d.map_name, "prt_fild08.gat");
}

#[test]
fn drop_table_drops_land_at_the_monster() {
    let mut ai = create_test_mob_ai(vec![0]);
    let mut tables = HashMap::new();
    tables.insert(1001u16, MobDropTable::new(vec![
        DropTableEntry { item_id: 501, min_amount: 2, max_amount: 2, chance: 10000, is_zeny: false, is_mvp_bonus: false },
        DropTableEntry { item_id: 607, min_amount: 1, max_amount: 1, chance: 10000, is_zeny: false, is_mvp_bonus: true },
    ]));
    ai.set_drop_tables(tables);
    let mut mob = create_test_mob((12, 13), 5);
    let mut dm = DropManager::new();
    let bus = ChannelBus::new();
    let mut ids = EntityIds::new();
    let placed = ai.process_drops_with_resolver(&mob, &mut dm, &bus, &mut ids);
    assert_eq!(placed.len(), 1);
    assert_eq!(dm.find_at_position(12, 13, "test_map").unwrap().item_id, 501);
    mob.damage_log.insert(4, 10);
    let placed = ai.process_drops_with_resolver(&mob, &mut dm, &bus, &mut ids);
    assert_eq!(placed.len(), 2);
    mob.mob_id = 4242;
    assert!(ai.process_drops_with_resolver(&mob, &mut dm, &bus, &mut ids).is_empty());
}

#[test]
fn certain_skill_fires_whatever_the_roll() {
    let ai = create_test_mob_ai(vec![9999]);
    let mut mob = create_test_mob_with_skills((100, 100), 5, vec![
        skill(5, 3, 10000, MobSkillTarget::Target, MobSkillCondition::Any, 0, 0),
    ]);
    assert_eq!(ai.try_use_skill(&mut mob, Some((100, 101)), NOW), Some(0));
}

#[test]
fn nearer_player_wins_whatever_the_order() {
    let mut mob = create_test_mob((100, 100), 5);
    let far = create_test_player((106, 104), 1);
    let near = create_test_player((101, 101), 2);
    let ai = create_test_mob_ai(vec![0]);
    ai.update(&mut mob, &world(vec![far, near], vec![]), NOW);
    assert_eq!(mob.ai_state, MobAIState::Chase);
    assert_eq!(mob.target_id, Some(2));
}
