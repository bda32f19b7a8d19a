use ro_world::map::drop_item::DropManager;
use ro_world::map::status_packets::{build_skill_info_update, build_status_change_ack};
use ro_world::map::player::{
    Attributes, CombatStats, Economy, LevelStats, Player, PlayerState, Position, SavePoint, MAX_ZENY,
};

fn test_player() -> Player {
    Player {
        id: 11,
        char_id: 1,
        account_id: 1,
        name: "TestPlayer".to_string(),
        map_name: "test_map".to_string(),
        combat: CombatStats {
            hp: 1000,
            max_hp: 1000,
            sp: 100,
            max_sp: 100,
            state: PlayerState::Alive,
            in_combat: false,
            is_sitting: false,
            walk_speed: 150,
            direction: 0,
        },
        pos: Position { x: 50, y: 60 },
        level: LevelStats { base_level: 10, job_level: 5, base_exp: 1050, job_exp: 99, status_point: 3, skill_point: 2 },
        attrs: Attributes { str: 10, agi: 11, vit: 12, int_: 13, dex: 14, luk: 15 },
        economy: Economy { zeny: 101, current_weight: 0, max_weight: 2000, job: 0, shop_id: None, group_id: 0 },
        save_point: SavePoint { map: "prontera.gat".to_string(), x: 150, y: 180 },
        party_id: None,
        guild_id: None,
    }
}

// ---------------------------------------------------------------- drops on the ground

#[test]
fn add_creates_drop_item_and_returns_id() {
    let mut manager = DropManager::new();
    let id = manager.add(1001, 3, 10, 20, "prontera");
    assert_ne!(id, 0);
    let drops = manager.get_drops_for_map("prontera");
    assert_eq!(drops.len(), 1);
    assert_eq!(drops[0].id, id);
    assert_eq!(drops[0].item_id, 1001);
    assert_eq!(drops[0].amount, 3);
    assert_eq!(drops[0].x, 10);
    assert_eq!(drops[0].y, 20);
    assert_eq!(drops[0].map_name, "prontera");
}

#[test]
fn pickup_removes_and_returns_drop_item() {
    let mut manager = DropManager::new();
    let id = manager.add(1001, 1, 5, 5, "prontera");
    let picked = manager.pickup(id).unwrap();
    assert_eq!(picked.item_id, 1001);
    assert_eq!(picked.id, id);
    assert!(manager.pickup(id).is_none());
}

#[test]
fn pickup_returns_none_for_non_existent_id() {
    let mut manager = DropManager::new();
    assert!(manager.pickup(0x1234_5678).is_none());
}

#[test]
fn find_at_position_finds_drop_at_coordinates() {
    let mut manager = DropManager::new();
    manager.add(1001, 1, 15, 25, "geffen");
    manager.add(1002, 1, 30, 40, "geffen");
    let found = manager.find_at_position(15, 25, "geffen");
    assert_eq!(found.unwrap().item_id, 1001);
}

#[test]
fn find_at_position_returns_none_when_no_drop_at_position() {
    let mut manager = DropManager::new();
    manager.add(1001, 1, 15, 25, "geffen");
    assert!(manager.find_at_position(99, 99, "geffen").is_none());
    assert!(manager.find_at_position(15, 25, "prontera").is_none());
}

#[test]
fn cleanup_expired_removes_expired_drops() {
    let mut manager = DropManager::new();
    let fresh = manager.add_at(1001, 1, 10, 10, "prontera", 1_000_000);
    let old = manager.add_at(1002, 1, 11, 11, "prontera", 0);
    // 301 seconds after the old drop, 1 second... after neither for the fresh one.
    let expired = manager.cleanup_expired(301_000);
    assert_eq!(expired, vec![old]);
    assert!(manager.pickup(old).is_none());
    assert!(manager.pickup(fresh).is_some());
}

#[test]
fn cleanup_keeps_a_drop_at_exactly_its_lifetime() {
    let mut manager = DropManager::new();
    let id = manager.add_at(1001, 1, 10, 10, "prontera", 0);
    assert!(manager.cleanup_expired(300_999).is_empty());
    assert_eq!(manager.cleanup_expired(301_000), vec![id]);
}

#[test]
fn get_drops_for_map_returns_only_drops_for_specified_map() {
    let mut manager = DropManager::new();
    manager.add(1001, 1, 10, 10, "prontera");
    manager.add(1002, 1, 20, 20, "geffen");
    manager.add(1003, 1, 30, 30, "prontera");
    let prontera_drops = manager.get_drops_for_map("prontera");
    assert_eq!(prontera_drops.len(), 2);
    assert!(prontera_drops.iter().all(|d| d.map_name == "prontera"));
    let geffen_drops = manager.get_drops_for_map("geffen");
    assert_eq!(geffen_drops.len(), 1);
    assert_eq!(geffen_drops[0].item_id, 1002);
}

// ---------------------------------------------------------------- players

#[test]
fn damage_below_hp_only_lowers_hp() {
    let mut p = test_player();
    assert!(!p.take_damage(400));
    assert_eq!(p.hp(), 600);
    assert!(p.is_alive());
    assert_eq!(p.base_exp(), 1050);
}

#[test]
fn death_costs_one_percent_of_experience() {
    let mut p = test_player();
    assert!(p.take_damage(1000));
    assert!(p.is_dead());
    assert_eq!(p.hp(), 0);
    assert_eq!(p.base_exp(), 1050 - 10);
    assert_eq!(p.job_exp(), 99);
}

#[test]
fn die_and_respawn() {
    let mut p = test_player();
    p.sit();
    p.die();
    assert!(p.is_dead());
    p.respawn(7, 8);
    assert!(p.is_alive());
    assert!(!p.is_sitting());
    assert_eq!(p.hp(), p.max_hp());
    assert_eq!(p.sp(), p.max_sp());
    assert_eq!(p.get_position(), (7, 8));
}

#[test]
fn direction_is_taken_modulo_eight() {
    let mut p = test_player();
    p.set_direction(7);
    assert_eq!(p.direction(), 7);
    p.set_direction(9);
    assert_eq!(p.direction(), 1);
}

#[test]
fn death_drops_half_the_zeny() {
    let mut p = test_player();
    assert_eq!(p.drop_zeny_on_death(), 50);
    assert_eq!(p.zeny(), 51);
}

#[test]
fn zeny_is_capped() {
    let mut p = test_player();
    p.add_zeny(1000);
    assert_eq!(p.zeny(), 1101);
    p.add_zeny(u64::MAX);
    assert_eq!(p.zeny(), MAX_ZENY);
}

#[test]
fn heals_stop_at_the_maximum() {
    let mut p = test_player();
    p.take_damage(300);
    p.apply_heal(100);
    assert_eq!(p.hp(), 800);
    p.apply_heal(1000);
    assert_eq!(p.hp(), 1000);
    p.combat.sp = 10;
    p.apply_sp_heal(500);
    assert_eq!(p.sp(), 100);
}

#[test]
fn experience_is_added() {
    let mut p = test_player();
    p.add_base_exp(50);
    p.add_job_exp(1);
    assert_eq!(p.base_exp(), 1100);
    assert_eq!(p.job_exp(), 100);
}

#[test]
fn overweight_thresholds() {
    let mut p = test_player();
    p.economy.current_weight = 1000;
    assert!(!p.is_overweight());
    p.economy.current_weight = 1001;
    assert!(p.is_overweight());
    assert!(!p.is_overweight_90());
    p.economy.current_weight = 1801;
    assert!(p.is_overweight_90());
}

#[test]
fn save_points_and_save_data() {
    let mut p = test_player();
    assert_eq!(p.get_save_point(), (150, 180));
    assert_eq!(p.get_save_map(), "prontera.gat");
    p.set_save_point();
    assert_eq!(p.get_save_point(), (50, 60));
    assert_eq!(p.get_save_map(), "test_map");
    p.set_save_point_at("geffen.gat", 1, 2);
    assert_eq!(p.get_save_map(), "geffen.gat");
    let d = p.to_save_data();
    assert_eq!(d.char_id, 1);
    assert_eq!(d.last_map, "test_map");
    assert_eq!((d.last_x, d.last_y), (50, 60));
    assert_eq!(d.int_, 13);
    assert_eq!(d.zeny, 101);
    assert_eq!(d.status_point, 3);
}

#[test]
fn status_change_answer_bytes() {
    let p = test_player();
    assert_eq!(build_status_change_ack(13, &p), vec![10, 0, 0xBC, 0, 13, 0, 10, 0, 3, 0]);
    assert_eq!(build_status_change_ack(16, &p), vec![10, 0, 0xBC, 0, 16, 0, 13, 0, 3, 0]);
    assert_eq!(build_status_change_ack(99, &p), vec![10, 0, 0xBC, 0, 99, 0, 0, 0, 3, 0]);
}

#[test]
fn skill_info_update_bytes() {
    assert_eq!(build_skill_info_update(0x0102, 7), vec![8, 0, 0x0E, 0x01, 0x02, 0x01, 7, 0]);
}

#[test]
fn player_getters_and_groups() {
    let mut p = test_player();
    assert_eq!((p.str(), p.agi(), p.vit(), p.int_(), p.dex(), p.luk()), (10, 11, 12, 13, 14, 15));
    assert_eq!((p.status_point(), p.skill_point()), (3, 2));
    assert_eq!((p.max_weight(), p.current_weight(), p.group_id()), (2000, 0, 0));
    p.set_party_id(Some(5));
    p.set_guild_id(Some(6));
    assert_eq!((p.party_id(), p.guild_id()), (Some(5), Some(6)));
    let q = p.clone();
    assert_eq!(q.name, p.name);
    assert_eq!(q.party_id(), Some(5));
}
