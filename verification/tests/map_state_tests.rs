use ro_world::map::cell::CellType;
use ro_world::map::data::{MapData, MapDatabase};
use ro_world::map::map_state::MapState;
use ro_world::map::player::{
    Attributes, CombatStats, Economy, LevelStats, Player, PlayerState, Position, SavePoint,
};

fn create_test_player(id: u128, x: u16, y: u16, map: &str) -> Player {
    Player {
        id,
        char_id: 1,
        account_id: id as u32,
        name: format!("TestPlayer{}", id),
        map_name: map.to_string(),
        combat: CombatStats {
            hp: 100,
            max_hp: 100,
            sp: 100,
            max_sp: 100,
            state: PlayerState::Alive,
            in_combat: false,
            is_sitting: false,
            walk_speed: 150,
            direction: 0,
        },
        pos: Position { x, y },
        level: LevelStats { base_level: 1, job_level: 1, base_exp: 0, job_exp: 0, status_point: 0, skill_point: 0 },
        attrs: Attributes { str: 1, agi: 1, vit: 1, int_: 1, dex: 1, luk: 1 },
        economy: Economy { zeny: 0, current_weight: 0, max_weight: 2030, job: 0, shop_id: None, group_id: 0 },
        save_point: SavePoint { map: map.to_string(), x: 50, y: 50 },
        party_id: None,
        guild_id: None,
    }
}

fn create_test_map_with_pattern() -> MapData {
    let mut map = MapData::new("test_collision.gat", 10, 10);
    for x in 0..10 {
        map.set_cell(x, 0, CellType::Wall);
        map.set_cell(x, 9, CellType::Wall);
    }
    for y in 0..10 {
        map.set_cell(0, y, CellType::Wall);
        map.set_cell(9, y, CellType::Wall);
    }
    map.set_cell(3, 3, CellType::Water);
    map.set_cell(5, 5, CellType::Cliff);
    map.set_cell(7, 7, CellType::Npc);
    map.set_cell(8, 8, CellType::Warp);
    map
}

#[test]
fn test_get_players_near() {
    let mut state = MapState::new();
    let map = "test_map";
    state.add_player(create_test_player(1, 100, 100, map));
    state.add_player(create_test_player(2, 150, 100, map));
    state.add_player(create_test_player(3, 250, 250, map));
    state.add_player(create_test_player(4, 100, 100, "other_map"));

    let nearby = state.get_players_near(map, 100, 100, 100);
    assert_eq!(nearby.len(), 2);
    assert!(nearby.iter().any(|p| p.id == 1));
    assert!(nearby.iter().any(|p| p.id == 2));

    let nearby2 = state.get_players_near(map, 100, 100, 300);
    assert_eq!(nearby2.len(), 3);

    let empty = state.get_players_near("nonexistent_map", 0, 0, 100);
    assert_eq!(empty.len(), 0);
}

#[test]
fn test_is_walkable() {
    let state = MapState::new();
    assert!(!state.is_walkable("new_1-1.gat", 0, 0));
    assert!(state.is_walkable("new_1-1.gat", 50, 50));
    assert!(!state.is_walkable("new_1-1.gat", 90, 90));
    assert!(!state.is_walkable("nonexistent.gat", 0, 0));
}

#[test]
fn test_is_walkable_boundary() {
    let state = MapState::new();
    assert!(!state.is_walkable("new_1-1.gat", 200, 200));
    assert!(!state.is_walkable("new_1-1.gat", 999, 999));
}

#[test]
fn test_map_state_walkability_integration() {
    let mut db = MapDatabase::new();
    db.insert(create_test_map_with_pattern());
    let state = MapState::with_map_database(db);
    assert!(!state.is_walkable("test_collision.gat", 0, 0));
    assert!(state.is_walkable("test_collision.gat", 1, 1));
    assert!(!state.is_walkable("test_collision.gat", 3, 3));
    assert!(state.is_walkable("test_collision.gat", 7, 7));
    assert!(!state.is_walkable("no_such_map.gat", 0, 0));
}

#[test]
fn players_are_listed_by_map_in_join_order() {
    let mut state = MapState::new();
    state.add_player(create_test_player(5, 1, 1, "a"));
    state.add_player(create_test_player(6, 1, 1, "b"));
    state.add_player(create_test_player(7, 1, 1, "a"));
    let on_a: Vec<u128> = state.get_players_on_map("a").iter().map(|p| p.id).collect();
    assert_eq!(on_a, vec![5, 7]);
    assert_eq!(state.player_count(), 3);
    state.remove_player(5);
    let on_a: Vec<u128> = state.get_players_on_map("a").iter().map(|p| p.id).collect();
    assert_eq!(on_a, vec![7]);
    assert!(state.get_player(5).is_none());
    assert_eq!(state.player_count(), 2);
    let mut ids = state.get_all_player_ids();
    ids.sort();
    assert_eq!(ids, vec![6, 7]);
    assert_eq!(state.get_all_players().len(), 2);
    let mut names = state.get_all_map_names();
    names.sort();
    assert_eq!(names, vec!["a".to_string(), "b".to_string()]);
}

#[test]
fn players_are_found_by_name_and_account() {
    let mut state = MapState::new();
    state.add_player(create_test_player(8, 1, 1, "a"));
    assert_eq!(state.find_player_by_name("TestPlayer8").unwrap().id, 8);
    assert!(state.find_player_by_name("Nobody").is_none());
    assert_eq!(state.find_player_by_account_id(8).unwrap().id, 8);
    assert!(state.find_player_by_account_id(99).is_none());
}

#[test]
fn respawn_moves_a_player_to_the_new_map() {
    let mut state = MapState::new();
    let mut p = create_test_player(9, 10, 10, "a");
    p.combat.hp = 0;
    p.combat.state = PlayerState::Dead;
    state.add_player(p);
    assert!(state.respawn_player(9, 150, 180, "prontera.gat"));
    let q = state.get_player(9).unwrap();
    assert_eq!(q.map_name, "prontera.gat");
    assert_eq!(q.get_position(), (150, 180));
    assert_eq!(q.hp(), 100);
    assert!(q.is_alive());
    assert!(state.get_players_on_map("a").is_empty());
    assert_eq!(state.get_players_on_map("prontera.gat").len(), 1);
    assert!(!state.respawn_player(10, 1, 1, "a"));
}

#[test]
fn rewards_go_to_online_players_only() {
    let mut state = MapState::new();
    state.add_player(create_test_player(11, 1, 1, "a"));
    assert!(state.add_player_base_exp(11, 30));
    assert!(state.add_player_job_exp(11, 4));
    assert!(state.add_player_zeny(11, 500));
    assert!(!state.add_player_zeny(12, 500));
    let p = state.get_player(11).unwrap();
    assert_eq!(p.base_exp(), 30);
    assert_eq!(p.job_exp(), 4);
    assert_eq!(p.zeny(), 500);
}

#[test]
fn update_player_map_only_moves_the_listing() {
    let mut state = MapState::new();
    state.add_player(create_test_player(13, 1, 1, "a"));
    state.update_player_map(13, "a", "b");
    assert!(state.get_players_on_map("a").is_empty());
    assert_eq!(state.get_players_on_map("b").len(), 1);
    assert_eq!(state.get_player(13).unwrap().map_name, "a");
}
