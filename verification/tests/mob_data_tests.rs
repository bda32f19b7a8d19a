use std::cell::Cell;
use std::collections::HashMap;

use ro_world::element::{Element, ElementLevel, MobSize};
use ro_world::map::cell::CellType;
use ro_world::map::data::MapData;
use ro_world::mob::data::{
    Mob, MobAIState, MobBehavior, MobDatabase, MobPathManager, MobRace, MobSkillCondition, MobSkillTarget,
};
use ro_world::mob::droptable::{DropResolver, DropTableEntry, MobDropTable, MVPResolver};
use ro_world::mob::pathfinder::Pathfinder;
use ro_world::mob::skill_db::{MobSkillDatabase, MobSkillEntry};
use ro_world::mob::yaml_loader::{
    convert_mob_skill, default_skill_condition, default_skill_level, default_skill_target, item_name_to_id,
    parse_behavior, parse_element, parse_element_level, parse_modes, parse_race, parse_size, parse_skill_condition,
    parse_skill_target, template_from_entry, MobSkillYamlEntry, MobYamlDrop, MobYamlEntry,
};
use ro_world::rng::GameRng;
use ro_world::strmap::StrMap;

// ---------------------------------------------------------------- path manager

#[test]
fn test_path_manager_start_chase() {
    let mut manager = MobPathManager::new();
    assert!(!manager.is_chasing);
    assert!(manager.cached_path.is_empty());
    manager.start_chase((100, 200));
    assert!(manager.is_chasing);
    assert_eq!(manager.target_pos, Some((100, 200)));
    assert!(manager.cached_path.is_empty());
    assert_eq!(manager.current_step, 0);
    assert!(!manager.path_invalid);
}

#[test]
fn test_path_manager_set_path() {
    let mut manager = MobPathManager::new();
    manager.start_chase((100, 200));
    manager.set_path(vec![(10, 10), (11, 11), (12, 12)]);
    assert_eq!(manager.cached_path.len(), 3);
    assert_eq!(manager.current_step, 0);
    assert!(!manager.path_invalid);
}

#[test]
fn test_path_manager_advance_step() {
    let mut manager = MobPathManager::new();
    manager.set_path(vec![(10, 10), (11, 11), (12, 12)]);
    assert_eq!(manager.advance_step(), Some((10, 10)));
    assert_eq!(manager.advance_step(), Some((11, 11)));
    assert_eq!(manager.advance_step(), Some((12, 12)));
    assert_eq!(manager.advance_step(), None);
}

#[test]
fn test_path_manager_invalidate() {
    let mut manager = MobPathManager::new();
    manager.set_path(vec![(10, 10)]);
    assert!(!manager.path_invalid);
    manager.invalidate();
    assert!(manager.path_invalid);
}

#[test]
fn test_path_manager_stop_chase() {
    let mut manager = MobPathManager::new();
    manager.start_chase((100, 200));
    manager.set_path(vec![(10, 10)]);
    manager.stop_chase();
    assert!(!manager.is_chasing);
    assert_eq!(manager.target_pos, None);
    assert!(manager.cached_path.is_empty());
}

// ---------------------------------------------------------------- monsters

#[test]
fn test_mob_hp_percent_full() {
    let mob = Mob::new(1001, 100, 100, "test_map");
    assert_eq!(mob.hp_percent(), 100);
}

#[test]
fn test_mob_hp_percent_half() {
    let mut mob = Mob::new(1001, 100, 100, "test_map");
    mob.hp = 50;
    assert_eq!(mob.hp_percent(), 50);
}

#[test]
fn test_mob_hp_percent_zero() {
    let mut mob = Mob::new(1001, 100, 100, "test_map");
    mob.hp = 0;
    assert_eq!(mob.hp_percent(), 0);
}

#[test]
fn test_mob_hp_percent_one_hp() {
    let mut mob = Mob::new(1001, 100, 100, "test_map");
    mob.hp = 1;
    assert_eq!(mob.hp_percent(), 1);
}

#[test]
fn hp_percent_rounds_down_and_handles_zero_max() {
    let mut mob = Mob::new(1001, 100, 100, "test_map");
    mob.max_hp = 3;
    mob.hp = 2;
    assert_eq!(mob.hp_percent(), 66);
    mob.max_hp = 0;
    assert_eq!(mob.hp_percent(), 0);
}

#[test]
fn test_mob_heal_basic() {
    let mut mob = Mob::new(1001, 100, 100, "test_map");
    mob.hp = 50;
    mob.heal(20);
    assert_eq!(mob.hp, 70);
}

#[test]
fn test_mob_heal_cap_at_max() {
    let mut mob = Mob::new(1001, 100, 100, "test_map");
    mob.hp = 90;
    mob.heal(50);
    assert_eq!(mob.hp, 100);
}

#[test]
fn test_mob_heal_at_full_hp() {
    let mut mob = Mob::new(1001, 100, 100, "test_map");
    mob.heal(100);
    assert_eq!(mob.hp, 100);
}

#[test]
fn test_mob_skill_cooldowns_initialized_empty() {
    let mob = Mob::new(1001, 100, 100, "test_map");
    assert!(mob.skill_cooldowns.is_empty());
}

#[test]
fn test_mob_respawn_clears_cooldowns() {
    let mut mob = Mob::new(1001, 100, 100, "test_map");
    mob.skill_cooldowns.insert(5, 1000);
    mob.skill_cooldowns.insert(28, 1000);
    assert_eq!(mob.skill_cooldowns.len(), 2);
    mob.hp = 0;
    mob.ai_state = MobAIState::Dead;
    mob.death_time = Some(1000);
    mob.respawn();
    assert!(mob.skill_cooldowns.is_empty());
    assert_eq!(mob.hp, 100);
    assert_eq!(mob.ai_state, MobAIState::Idle);
    assert_eq!(mob.death_time, None);
}

#[test]
fn test_mob_from_template_has_empty_cooldowns() {
    let db = MobDatabase::new();
    let mob = Mob::from_template(&db, 1001, 50, 50, "test_map");
    assert!(mob.skill_cooldowns.is_empty());
}

#[test]
fn mob_new_names_itself_after_its_kind() {
    let mob = Mob::new(1001, 3, 4, "prontera.gat");
    assert_eq!(mob.name, "Mob_1001");
    assert_eq!(mob.get_position(), (3, 4));
    assert_eq!(mob.map_name, "prontera.gat");
    assert_eq!(mob.max_hp, 100);
}

#[test]
fn from_template_copies_the_built_in_poring() {
    let db = MobDatabase::new();
    let mob = Mob::from_template(&db, 1001, 10, 20, "prt_fild08.gat");
    assert_eq!(mob.name, "Poring");
    assert_eq!(mob.hp, mob.max_hp);
    assert_eq!(mob.get_position(), (10, 20));
    assert_eq!(mob.spawn_x, 10);
    assert_eq!(mob.ai_state, MobAIState::Idle);
}

#[test]
fn take_damage_kills_at_zero() {
    let mut mob = Mob::new(1001, 1, 1, "m");
    assert!(!mob.take_damage(30));
    assert_eq!(mob.hp, 70);
    assert!(mob.take_damage(70));
    assert_eq!(mob.hp, 0);
    assert!(mob.is_dead());
    assert_eq!(mob.ai_state, MobAIState::Dead);
    assert!(mob.death_time.is_some());
}

#[test]
fn add_damage_accumulates_per_player() {
    let mut mob = Mob::new(1001, 1, 1, "m");
    mob.add_damage(9, 10);
    mob.add_damage(9, 15);
    mob.add_damage(4, 1);
    assert_eq!(mob.dmglog.get(&9), Some(&25));
    assert_eq!(mob.dmglog.get(&4), Some(&1));
}

#[test]
fn test_mob_skill_target_equality() {
    assert_eq!(MobSkillTarget::Target, MobSkillTarget::Target);
    assert_eq!(MobSkillTarget::Self_, MobSkillTarget::Self_);
    assert_ne!(MobSkillTarget::Target, MobSkillTarget::Self_);
}

#[test]
fn test_mob_skill_condition_equality() {
    assert_eq!(MobSkillCondition::Any, MobSkillCondition::Any);
    assert_eq!(MobSkillCondition::HpCertain, MobSkillCondition::HpCertain);
    assert_ne!(MobSkillCondition::Any, MobSkillCondition::HpCertain);
}

// ---------------------------------------------------------------- drop tables

/// A scripted source: `rand_bp` hands out the current value without moving
/// on; `rand_range` hands it out clamped and moves on.
struct TestRng {
    values: Vec<u32>,
    index: Cell<usize>,
}

impl TestRng {
    fn new(values: Vec<u32>) -> Self {
        TestRng { values, index: Cell::new(0) }
    }
}

impl GameRng for TestRng {
    fn rand_range(&self, min: u32, max: u32) -> u32 {
        let i = self.index.get();
        self.index.set(i.wrapping_add(1));
        let v = self.values.get(i % self.values.len()).copied().unwrap_or(min);
        v.min(max).max(min)
    }

    fn rand_bp(&self, _chance: u32) -> u32 {
        let i = self.index.get();
        self.values.get(i % self.values.len()).copied().unwrap_or(0)
    }
}

fn create_entry(item_id: u32, min_amount: u16, max_amount: u16, chance: u32, is_zeny: bool, is_mvp_bonus: bool) -> DropTableEntry {
    DropTableEntry { item_id, min_amount, max_amount, chance, is_zeny, is_mvp_bonus }
}

#[test]
fn test_always_drops() {
    let resolver = DropResolver;
    let table = MobDropTable::new(vec![create_entry(501, 1, 1, 10000, false, false)]);
    let test_rng = TestRng::new(vec![5000]);
    let drops = resolver.resolve(&table, &test_rng, 1, None);
    assert!(!drops.is_empty(), "100% chance should always drop");
    assert_eq!(drops.len(), 1);
}

#[test]
fn test_never_drops() {
    let resolver = DropResolver;
    let table = MobDropTable::new(vec![create_entry(501, 1, 1, 0, false, false)]);
    let test_rng = TestRng::new(vec![0]);
    let drops = resolver.resolve(&table, &test_rng, 1, None);
    assert!(drops.is_empty(), "0% chance should never drop");
}

#[test]
fn test_range_amount() {
    let resolver = DropResolver;
    let table = MobDropTable::new(vec![create_entry(501, 1, 5, 10000, false, false)]);
    let test_rng = TestRng::new(vec![0, 1, 2, 3, 4, 5, 6, 7, 100]);
    let drops = resolver.resolve(&table, &test_rng, 1, None);
    assert!(!drops.is_empty());
    for drop in drops {
        assert!(drop.amount >= 1 && drop.amount <= 5, "Amount should be in range 1-5");
    }
}

#[test]
fn test_multiple_entries_independent_rolls() {
    let resolver = DropResolver;
    let table = MobDropTable::new(vec![
        create_entry(501, 1, 1, 10000, false, false),
        create_entry(502, 1, 1, 0, false, false),
    ]);
    let test_rng = TestRng::new(vec![0]);
    let drops = resolver.resolve(&table, &test_rng, 1, None);
    assert_eq!(drops.len(), 1);
    assert_eq!(drops[0].item_id, 501);
}

#[test]
fn test_mvp_bonus_requires_mvp_id() {
    let resolver = DropResolver;
    let table = MobDropTable::new(vec![create_entry(501, 1, 1, 10000, false, true)]);
    let test_rng = TestRng::new(vec![0]);
    let drops_no_mvp = resolver.resolve(&table, &test_rng, 1, None);
    assert!(drops_no_mvp.is_empty(), "MVP bonus should not drop without mvp_id");
    let drops_with_mvp = resolver.resolve(&table, &test_rng, 1, Some(77));
    assert!(!drops_with_mvp.is_empty(), "MVP bonus should drop with mvp_id");
}

#[test]
fn test_pick_mvp_highest_damage() {
    let damage_log: HashMap<u128, u64> = HashMap::from([(1, 5000), (2, 15000), (3, 8000)]);
    let mvp = MVPResolver::pick_mvp(&damage_log);
    assert!(mvp.is_some());
    assert_eq!(mvp.unwrap(), 2);
}

#[test]
fn test_pick_mvp_empty_log() {
    let damage_log: HashMap<u128, u64> = HashMap::new();
    assert!(MVPResolver::pick_mvp(&damage_log).is_none());
}

#[test]
fn test_pick_mvp_single_player() {
    let damage_log: HashMap<u128, u64> = HashMap::from([(9, 1000)]);
    let mvp = MVPResolver::pick_mvp(&damage_log);
    assert_eq!(mvp, Some(9));
}

#[test]
fn test_drop_table_entry_fields() {
    let entry = create_entry(1234, 5, 10, 5000, true, false);
    assert_eq!(entry.item_id, 1234);
    assert_eq!(entry.min_amount, 5);
    assert_eq!(entry.max_amount, 10);
    assert_eq!(entry.chance, 5000);
    assert!(entry.is_zeny);
    assert!(!entry.is_mvp_bonus);
}

#[test]
fn test_mob_drop_table_entries() {
    let entries = vec![create_entry(1, 1, 1, 10000, false, false), create_entry(2, 1, 3, 5000, false, false)];
    let table = MobDropTable::new(entries.clone());
    assert_eq!(table.entries().len(), 2);
    assert_eq!(table.entries()[0].item_id, 1);
    assert_eq!(table.entries()[1].item_id, 2);
}

#[test]
fn resolved_drops_keep_the_table_order() {
    let resolver = DropResolver;
    let table = MobDropTable::new(vec![
        create_entry(7, 2, 2, 10000, false, false),
        create_entry(8, 1, 1, 10000, false, true),
        create_entry(9, 3, 3, 10000, false, false),
    ]);
    let drops = resolver.resolve(&table, &TestRng::new(vec![0]), 1, None);
    let ids: Vec<u32> = drops.iter().map(|d| d.item_id).collect();
    assert_eq!(ids, vec![7, 9]);
    assert_eq!(drops[0].amount, 2);
    assert_eq!(drops[1].amount, 3);
}

// ---------------------------------------------------------------- path finding

fn open_grid() -> MapData {
    MapData::new("grid", 40, 40)
}

#[test]
fn test_straight_line_path() {
    let grid = open_grid();
    let end = (5, 0);
    let path = Pathfinder::find_path((0, 0), end, &grid, 20).unwrap();
    assert!(!path.is_empty());
    assert_eq!(path.last(), Some(&end));
}

#[test]
fn test_vertical_path() {
    let grid = open_grid();
    let end = (0, 5);
    let path = Pathfinder::find_path((0, 0), end, &grid, 20).unwrap();
    assert!(!path.is_empty());
    assert_eq!(path.last(), Some(&end));
}

#[test]
fn test_diagonal_path() {
    let grid = open_grid();
    let end = (3, 3);
    let path = Pathfinder::find_path((0, 0), end, &grid, 20).unwrap();
    assert!(!path.is_empty());
    assert_eq!(path.last(), Some(&end));
    assert_eq!(path.len(), 3);
}

#[test]
fn test_path_around_wall() {
    let mut grid = open_grid();
    for y in 0..=2 {
        grid.set_cell(2, y, CellType::Wall);
    }
    let path = Pathfinder::find_path((0, 0), (3, 0), &grid, 20).unwrap();
    assert!(path.len() > 2);
    for &(x, y) in &path {
        assert!(grid.is_walkable(x, y));
    }
}

#[test]
fn test_no_path_when_blocked() {
    let mut grid = open_grid();
    for y in 0..40 {
        for x in 0..40 {
            if !(x <= 1 && y <= 1) {
                grid.set_cell(x, y, CellType::Wall);
            }
        }
    }
    assert!(Pathfinder::find_path((0, 0), (5, 5), &grid, 20).is_none());
}

#[test]
fn test_out_of_range() {
    let grid = MapData::new("big", 200, 200);
    assert!(Pathfinder::find_path((0, 0), (100, 100), &grid, 20).is_none());
}

#[test]
fn test_strict_diagonal_blocked_by_cardinal() {
    let mut grid = open_grid();
    grid.set_cell(2, 1, CellType::Wall);
    let path = Pathfinder::find_path((1, 1), (3, 3), &grid, 20);
    assert!(path.is_some());
}

#[test]
fn test_u_shaped_obstacle() {
    let mut grid = MapData::new("small", 11, 11);
    for y in 0..=3 {
        grid.set_cell(3, y, CellType::Wall);
    }
    let path = Pathfinder::find_path((0, 0), (5, 0), &grid, 20).unwrap();
    assert!(path.len() > 3);
}

#[test]
fn path_steps_are_single_cells() {
    let mut grid = open_grid();
    for y in 0..=5 {
        grid.set_cell(4, y, CellType::Wall);
    }
    let path = Pathfinder::find_path((1, 1), (8, 2), &grid, 20).unwrap();
    let mut prev = (1u16, 1u16);
    for &p in &path {
        let dx = (p.0 as i32 - prev.0 as i32).abs();
        let dy = (p.1 as i32 - prev.1 as i32).abs();
        assert!(dx <= 1 && dy <= 1 && (dx + dy) > 0);
        assert!(grid.is_walkable(p.0, p.1));
        prev = p;
    }
    assert_eq!(prev, (8, 2));
}

// ---------------------------------------------------------------- skill database

#[test]
fn test_empty_database() {
    let db = MobSkillDatabase::new();
    assert_eq!(db.count(), 0);
    assert_eq!(db.mob_count(), 0);
    assert!(db.get_skills(1001).is_empty());
}

#[test]
fn test_nonexistent_mob_returns_empty() {
    let db = MobSkillDatabase::new();
    assert!(db.get_skills(9999).is_empty());
}

fn skill_entry(mob_id: u16, skill_id: u16, level: u8, rate: u16, delay: u32, target: MobSkillTarget, condition: MobSkillCondition, condition_value: u32) -> MobSkillEntry {
    MobSkillEntry { mob_id, skill_id, level, rate, cast_time: 0, delay, target, condition, condition_value }
}

#[test]
fn skill_database_groups_entries_by_monster() {
    let db = MobSkillDatabase::from_entries(vec![
        skill_entry(1002, 28, 3, 1000, 10000, MobSkillTarget::Self_, MobSkillCondition::HpCertain, 50),
        skill_entry(1003, 7, 1, 10, 0, MobSkillTarget::Target, MobSkillCondition::Any, 0),
        skill_entry(1002, 5, 5, 500, 5000, MobSkillTarget::Target, MobSkillCondition::Any, 0),
    ]);
    assert_eq!(db.count(), 3);
    assert_eq!(db.mob_count(), 2);
    let skills = db.get_skills(1002);
    assert_eq!(skills.len(), 2);
    assert_eq!(skills[0].skill_id, 28);
    assert_eq!(skills[0].target, MobSkillTarget::Self_);
    assert_eq!(skills[0].condition, MobSkillCondition::HpCertain);
    assert_eq!(skills[1].skill_id, 5);
    assert_eq!(db.get_skills(1003).len(), 1);
}

// ---------------------------------------------------------------- yaml values

#[test]
fn test_parse_element() {
    assert_eq!(parse_element("Neutral"), Element::Neutral);
    assert_eq!(parse_element("Fire"), Element::Fire);
    assert_eq!(parse_element("Water"), Element::Water);
    assert_eq!(parse_element("EARTH"), Element::Earth);
    assert_eq!(parse_element("unknown"), Element::Neutral);
}

#[test]
fn test_parse_size() {
    assert_eq!(parse_size("Small"), MobSize::Small);
    assert_eq!(parse_size("Medium"), MobSize::Medium);
    assert_eq!(parse_size("Large"), MobSize::Large);
    assert_eq!(parse_size("unknown"), MobSize::Medium);
}

#[test]
fn test_parse_race() {
    assert_eq!(parse_race("Formless"), MobRace::Formless);
    assert_eq!(parse_race("Undead"), MobRace::Undead);
    assert_eq!(parse_race("Brute"), MobRace::Brute);
    assert_eq!(parse_race("Plant"), MobRace::Plant);
    assert_eq!(parse_race("Insect"), MobRace::Insect);
    assert_eq!(parse_race("Fish"), MobRace::Fish);
    assert_eq!(parse_race("Demon"), MobRace::Demon);
    assert_eq!(parse_race("DemiHuman"), MobRace::DemiHuman);
    assert_eq!(parse_race("Demi_Human"), MobRace::DemiHuman);
    assert_eq!(parse_race("Angel"), MobRace::Angel);
    assert_eq!(parse_race("Dragon"), MobRace::Dragon);
    assert_eq!(parse_race("unknown"), MobRace::Formless);
}

#[test]
fn test_parse_behavior() {
    assert_eq!(parse_behavior("01", &None), MobBehavior::Aggressive);
    assert_eq!(parse_behavior("03", &None), MobBehavior::Passive);
    assert_eq!(parse_behavior("04", &None), MobBehavior::Assist);
    assert_eq!(parse_behavior("05", &None), MobBehavior::PassiveAssist);
    assert_eq!(parse_behavior("06", &None), MobBehavior::Passive);
}

#[test]
fn test_parse_modes_default() {
    let flags = parse_modes(&None);
    assert!(flags.can_move);
    assert!(flags.can_attack);
    assert!(!flags.detector);
    assert!(!flags.boss);
    assert!(!flags.plant);
    assert!(flags.can_chase);
}

#[test]
fn test_parse_modes_boss_detector() {
    let mut modes = StrMap::new();
    modes.insert("Boss".to_string(), true);
    modes.insert("Detector".to_string(), true);
    modes.insert("CanMove".to_string(), false);
    modes.insert("CanChase".to_string(), false);
    let flags = parse_modes(&Some(modes));
    assert!(!flags.can_move);
    assert!(flags.can_attack);
    assert!(flags.detector);
    assert!(flags.boss);
    assert!(!flags.plant);
    assert!(!flags.can_chase);
}

#[test]
fn test_parse_behavior_immobile() {
    let mut modes = StrMap::new();
    modes.insert("CanMove".to_string(), false);
    assert_eq!(parse_behavior("06", &Some(modes)), MobBehavior::Immobile);
}

#[test]
fn test_parse_element_level() {
    assert_eq!(parse_element_level(1), ElementLevel::Level1);
    assert_eq!(parse_element_level(2), ElementLevel::Level2);
    assert_eq!(parse_element_level(3), ElementLevel::Level3);
    assert_eq!(parse_element_level(4), ElementLevel::Level4);
    assert_eq!(parse_element_level(5), ElementLevel::Level1);
}

#[test]
fn test_parse_skill_target() {
    assert_eq!(parse_skill_target("target"), MobSkillTarget::Target);
    assert_eq!(parse_skill_target("self"), MobSkillTarget::Self_);
    assert_eq!(parse_skill_target("TARGET"), MobSkillTarget::Target);
    assert_eq!(parse_skill_target("SELF"), MobSkillTarget::Self_);
    assert_eq!(parse_skill_target("unknown"), MobSkillTarget::Target);
}

#[test]
fn test_parse_skill_condition() {
    assert_eq!(parse_skill_condition("any"), MobSkillCondition::Any);
    assert_eq!(parse_skill_condition("hpcertain"), MobSkillCondition::HpCertain);
    assert_eq!(parse_skill_condition("rudeattacked"), MobSkillCondition::RudeAttacked);
    assert_eq!(parse_skill_condition("longrange"), MobSkillCondition::LongRange);
    assert_eq!(parse_skill_condition("ANY"), MobSkillCondition::Any);
    assert_eq!(parse_skill_condition("unknown"), MobSkillCondition::Any);
}

#[test]
fn test_mob_skill_entry_defaults() {
    assert_eq!(default_skill_level(), 1);
    assert_eq!(default_skill_target(), "target");
    assert_eq!(default_skill_condition(), "any");
}

fn yaml_skill(id: &str, lv: u8, rate: u32, delay: u32, target: &str, condition: &str, condition_value: u32) -> MobSkillYamlEntry {
    MobSkillYamlEntry {
        id: id.to_string(),
        lv,
        rate,
        cast_time: 0,
        delay,
        emotion: 0,
        target: target.to_string(),
        condition: condition.to_string(),
        condition_value,
    }
}

fn lunatic_entry() -> MobYamlEntry {
    MobYamlEntry {
        id: 1002,
        name: "Lunatic".to_string(),
        level: 3,
        hp: 80,
        sp: 0,
        base_exp: 6,
        job_exp: 4,
        attack: 12,
        attack2: 0,
        defense: 0,
        magic_defense: 0,
        agi: 10,
        dex: 12,
        luk: 5,
        attack_range: 1,
        skill_range: 0,
        chase_range: 0,
        size: "Small".to_string(),
        race: "Brute".to_string(),
        element: "Neutral".to_string(),
        element_level: 1,
        walk_speed: 200,
        attack_delay: 0,
        ai: "03".to_string(),
        modes: None,
        drops: Some(vec![MobYamlDrop { item: "Red_Potion".to_string(), rate: 35 }]),
        mvp_drops: None,
        skills: Some(vec![
            yaml_skill("AL_HEAL", 3, 1000, 10000, "self", "hpcertain", 50),
            yaml_skill("SM_BASH", 5, 500, 5000, "target", "any", 0),
        ]),
    }
}

#[test]
fn template_from_entry_reads_skills_and_drops() {
    let mut items = StrMap::new();
    items.insert("Red_Potion".to_string(), 501u16);
    let mut skills = StrMap::new();
    skills.insert("SM_BASH".to_string(), 5u16);
    let t = template_from_entry(&lunatic_entry(), &items, &skills);
    assert_eq!(t.name, "Lunatic");
    assert_eq!(t.level, 3);
    assert_eq!(t.hp, 80);
    assert_eq!(t.element, Element::Neutral);
    assert_eq!(t.size, MobSize::Small);
    assert_eq!(t.race, MobRace::Brute);
    assert_eq!(t.behavior, MobBehavior::Passive);
    assert_eq!(t.drops.len(), 1);
    assert_eq!(t.drops[0].item_id, 501);
    assert_eq!(t.drops[0].chance, 35);
    assert_eq!(t.skills.len(), 2);
    let heal = &t.skills[0];
    assert_eq!(heal.skill_id, 0);
    assert_eq!(heal.level, 3);
    assert_eq!(heal.chance, 1000);
    assert_eq!(heal.target, MobSkillTarget::Self_);
    assert_eq!(heal.condition, MobSkillCondition::HpCertain);
    assert_eq!(heal.condition_value, 50);
    assert_eq!(heal.cooldown_ms, 10000);
    let bash = &t.skills[1];
    assert_eq!(bash.skill_id, 5);
    assert_eq!(bash.level, 5);
    assert_eq!(bash.chance, 500);
    assert_eq!(bash.target, MobSkillTarget::Target);
    assert_eq!(bash.condition, MobSkillCondition::Any);
    assert_eq!(bash.cooldown_ms, 5000);
}

#[test]
fn template_without_skills_has_none() {
    let mut e = lunatic_entry();
    e.skills = None;
    e.drops = None;
    let t = template_from_entry(&e, &StrMap::new(), &StrMap::new());
    assert!(t.skills.is_empty());
    assert!(t.drops.is_empty());
}

#[test]
fn unknown_names_map_to_zero() {
    let items: StrMap<u16> = StrMap::new();
    assert_eq!(item_name_to_id(&items, "Nothing"), 0);
    let s = convert_mob_skill(&yaml_skill("NOPE", 1, 1, 1, "SELF", "LONGRANGE", 0), &StrMap::new());
    assert_eq!(s.skill_id, 0);
    assert_eq!(s.target, MobSkillTarget::Self_);
    assert_eq!(s.condition, MobSkillCondition::LongRange);
}
