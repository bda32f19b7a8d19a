use ro_world::rng::GameRng;
use ro_world::map::cell::CellType;
use ro_world::map::channel::{encode_pos3, EntityIds, GameEvent, ChatType, build_entity_appear_packet, map_channel_name, party_channel_name, guild_channel_name};
use ro_world::map::data::{MapData, MapDatabase};
use ro_world::map::gat::{GatError, GatParser};
use ro_world::map::job::{build_ack_changejob, parse_job_change_request, job_change_ack};
use ro_world::map::respawn::{RespawnPoint, RespawnService, RespawnType};
use ro_world::map::teleport::{MapAdjacency, MapEdge, SavePoint, SavePointManager, TeleportAction, TeleportManager, WarpError};

fn create_test_map_with_pattern() -> MapData {
    let mut map = MapData::new("test_collision.gat", 10, 10);
    for x in 0..10 {
        map.set_cell(x, 0, CellType::Wall);
        map.set_cell(x, 9, CellType::Wall);
    }
    for y in 0..10 {
        map.set_cell(0, y, CellType::Wall);
        map.set_cell(9, y, CellType::Wall);
    }
    map.set_cell(3, 3, CellType::Water);
    map.set_cell(5, 5, CellType::Cliff);
    map.set_cell(7, 7, CellType::Npc);
    map.set_cell(8, 8, CellType::Warp);
    map
}

#[test]
fn test_walkable_cells() {
    let map = create_test_map_with_pattern();
    assert!(map.is_walkable(1, 1));
    assert!(map.is_walkable(5, 1));
    assert!(map.is_walkable(7, 7));
    assert!(map.is_walkable(8, 8));
}

#[test]
fn test_non_walkable_cells() {
    let map = create_test_map_with_pattern();
    assert!(!map.is_walkable(0, 0));
    assert!(!map.is_walkable(0, 5));
    assert!(!map.is_walkable(9, 5));
    assert!(!map.is_walkable(3, 3));
    assert!(!map.is_walkable(5, 5));
}

#[test]
fn test_out_of_bounds() {
    let map = create_test_map_with_pattern();
    assert!(!map.is_walkable(10, 10));
    assert!(!map.is_walkable(100, 100));
    assert!(!map.is_walkable(u16::MAX, u16::MAX));
}

#[test]
fn test_gat_parsed_walkability() {
    let mut data = Vec::new();
    data.extend_from_slice(b"GRAT");
    data.extend_from_slice(&5u16.to_le_bytes());
    data.extend_from_slice(&3u16.to_le_bytes());
    data.extend_from_slice(&3u16.to_le_bytes());
    for i in 0..9u8 {
        let cell_type = if i % 2 == 0 { 0 } else { 1 };
        data.push(cell_type);
        data.push(0);
        data.push(0);
        data.push(0);
    }
    let map = GatParser::parse_bytes(&data, "test_gat").unwrap();
    assert!(map.is_walkable(0, 0));
    assert!(!map.is_walkable(1, 0));
    assert!(map.is_walkable(2, 0));
    assert!(!map.is_walkable(0, 1));
    assert!(map.is_walkable(1, 1));
}

#[test]
fn test_snipable_not_walkable() {
    let mut map = MapData::new("snipable_test.gat", 5, 5);
    map.set_cell(2, 2, CellType::Snipable);
    map.set_cell(3, 3, CellType::Icetrap);
    map.set_cell(4, 4, CellType::Basilica);
    assert!(!map.is_walkable(2, 2));
    assert!(!map.is_walkable(3, 3));
    assert!(!map.is_walkable(4, 4));
}

fn build_gat_bytes(width: u16, height: u16, cell_types: &[u8]) -> Vec<u8> {
    let mut data = Vec::new();
    data.extend_from_slice(b"GRAT");
    data.extend_from_slice(&5u16.to_le_bytes());
    data.extend_from_slice(&width.to_le_bytes());
    data.extend_from_slice(&height.to_le_bytes());
    for &ct in cell_types {
        data.push(ct);
        data.push(0);
        data.push(0);
        data.push(0);
    }
    data
}

#[test]
fn test_parse_simple_map() {
    let data = build_gat_bytes(2, 2, &[0, 1, 2, 3]);
    let map = GatParser::parse_bytes(&data, "test_map").unwrap();
    assert_eq!(map.name, "test_map.gat");
    assert_eq!(map.width, 2);
    assert_eq!(map.height, 2);
    assert_eq!(map.get_cell(0, 0).unwrap().cell_type, CellType::Walkable);
    assert_eq!(map.get_cell(1, 0).unwrap().cell_type, CellType::Wall);
    assert_eq!(map.get_cell(0, 1).unwrap().cell_type, CellType::Water);
    assert_eq!(map.get_cell(1, 1).unwrap().cell_type, CellType::Cliff);
}

#[test]
fn test_parse_walkable_check() {
    let data = build_gat_bytes(3, 1, &[0, 1, 0]);
    let map = GatParser::parse_bytes(&data, "walk_test").unwrap();
    assert!(map.is_walkable(0, 0));
    assert!(!map.is_walkable(1, 0));
    assert!(map.is_walkable(2, 0));
}

#[test]
fn test_invalid_magic() {
    let mut data = build_gat_bytes(1, 1, &[0]);
    data[0] = b'X';
    let result = GatParser::parse_bytes(&data, "bad");
    assert!(matches!(result, Err(GatError::InvalidMagic(_))));
}

#[test]
fn test_incomplete_data() {
    let data = b"GRAT\x05\x00\x02\x00\x02\x00";
    let result = GatParser::parse_bytes(data, "incomplete");
    assert!(matches!(result, Err(GatError::IncompleteData { .. })));
}

#[test]
fn test_zero_dimensions() {
    let data = build_gat_bytes(0, 0, &[]);
    let result = GatParser::parse_bytes(&data, "zero");
    assert!(matches!(result, Err(GatError::InvalidDimensions { .. })));
}

#[test]
fn test_unknown_cell_type() {
    let data = build_gat_bytes(1, 1, &[255]);
    let map = GatParser::parse_bytes(&data, "unknown").unwrap();
    assert_eq!(map.get_cell(0, 0).unwrap().cell_type, CellType::Wall);
}

#[test]
fn test_write_and_read_roundtrip() {
    let mut map = MapData::new("roundtrip_test", 4, 4);
    map.set_cell(0, 0, CellType::Walkable);
    map.set_cell(1, 0, CellType::Wall);
    map.set_cell(2, 0, CellType::Water);
    map.set_cell(3, 0, CellType::Npc);
    map.set_cell(0, 1, CellType::Warp);
    map.set_cell(1, 1, CellType::Snipable);
    let bytes = GatParser::to_gat_bytes(&map);
    let parsed = GatParser::parse_bytes(&bytes, "roundtrip_test").unwrap();
    assert_eq!(parsed.name, "roundtrip_test.gat");
    assert_eq!(parsed.width, 4);
    assert_eq!(parsed.height, 4);
    assert_eq!(parsed.get_cell(0, 0).unwrap().cell_type, CellType::Walkable);
    assert_eq!(parsed.get_cell(1, 0).unwrap().cell_type, CellType::Wall);
    assert_eq!(parsed.get_cell(2, 0).unwrap().cell_type, CellType::Water);
    assert_eq!(parsed.get_cell(3, 0).unwrap().cell_type, CellType::Npc);
    assert_eq!(parsed.get_cell(0, 1).unwrap().cell_type, CellType::Warp);
    assert_eq!(parsed.get_cell(1, 1).unwrap().cell_type, CellType::Snipable);
}

#[test]
fn test_all_cell_types() {
    let types = [0u8, 1, 2, 3, 4, 5, 6, 7, 8, 9, 10, 11];
    let data = build_gat_bytes(12, 1, &types);
    let map = GatParser::parse_bytes(&data, "all_types").unwrap();
    assert_eq!(map.get_cell(0, 0).unwrap().cell_type, CellType::Walkable);
    assert_eq!(map.get_cell(1, 0).unwrap().cell_type, CellType::Wall);
    assert_eq!(map.get_cell(2, 0).unwrap().cell_type, CellType::Water);
    assert_eq!(map.get_cell(3, 0).unwrap().cell_type, CellType::Cliff);
    assert_eq!(map.get_cell(4, 0).unwrap().cell_type, CellType::Snipable);
    assert_eq!(map.get_cell(5, 0).unwrap().cell_type, CellType::Npc);
    assert_eq!(map.get_cell(6, 0).unwrap().cell_type, CellType::Warp);
    assert_eq!(map.get_cell(7, 0).unwrap().cell_type, CellType::Icetrap);
    assert_eq!(map.get_cell(8, 0).unwrap().cell_type, CellType::Basilica);
    assert_eq!(map.get_cell(9, 0).unwrap().cell_type, CellType::Landmine);
    assert_eq!(map.get_cell(10, 0).unwrap().cell_type, CellType::NoChat);
    assert_eq!(map.get_cell(11, 0).unwrap().cell_type, CellType::Novice);
}

#[test]
fn gat_bad_version_is_refused() {
    let mut data = build_gat_bytes(1, 1, &[0]);
    data[4] = 9;
    assert!(matches!(GatParser::parse_bytes(&data, "v"), Err(GatError::UnsupportedVersion(9))));
}

#[test]
fn test_build_ack_changejob() {
    let pkt = build_ack_changejob(7);
    assert_eq!(pkt.len(), 6);
    assert_eq!(pkt[0], 6);
    assert_eq!(pkt[1], 0);
    assert_eq!(pkt[2], 0x9E);
    assert_eq!(pkt[3], 0x01);
    assert_eq!(pkt[4], 7);
    assert_eq!(pkt[5], 0);
}

#[test]
fn job_change_request_and_answer() {
    assert_eq!(parse_job_change_request(&[7]), None);
    assert_eq!(parse_job_change_request(&[0x01, 0x10]), Some(0x1001));
    assert_eq!(job_change_ack(0, 1, true), vec![6, 0, 0x9E, 0x01, 1, 0]);
    assert_eq!(job_change_ack(0, 1, false), vec![6, 0, 0x9E, 0x01, 0, 0]);
}

#[test]
fn encode_pos3_roundtrip() {
    let encoded = encode_pos3(100, 200, 3);
    assert_eq!(encoded.len(), 3);
    assert_eq!(encoded[0], 100);
}

#[test]
fn encode_pos3_packs_all_fields() {
    // x = 0x1FF, y = 0x1FF, dir = 5
    let e = encode_pos3(0x1FF, 0x1FF, 5);
    assert_eq!(e, [0xFF, 0xFF, 0x03 | (5 << 2)]);
    // positions that once collided now differ
    assert_ne!(encode_pos3(0, 256, 0), encode_pos3(0, 0, 1));
    assert_eq!(encode_pos3(100, 200, 3), [100, ((200 % 128) * 2) as u8, (1 + 3 * 4) as u8]);
}

#[test]
fn player_enter_to_packet_bytes_returns_0x0078() {
    let mut ids = EntityIds::new();
    let event = GameEvent::PlayerEnter { player_id: 77, name: "Test".to_string(), x: 100, y: 200, job: 1, level: 10, hp: 500, max_hp: 500 };
    let pkt = event.to_packet_bytes(&mut ids);
    assert_eq!(pkt.len(), 63);
    assert_eq!(pkt[0], 0x78);
    assert_eq!(pkt[1], 0x00);
    let actual_eid = u32::from_le_bytes([pkt[2], pkt[3], pkt[4], pkt[5]]);
    assert!(actual_eid > 0);
    let walk_speed = u16::from_le_bytes([pkt[6], pkt[7]]);
    assert_eq!(walk_speed, 150);
    let x = u16::from_le_bytes([pkt[58], pkt[59]]);
    let y = u16::from_le_bytes([pkt[60], pkt[61]]);
    assert_eq!(x, 100);
    assert_eq!(y, 200);
}

#[test]
fn player_leave_to_packet_bytes_returns_0x007a() {
    let mut ids = EntityIds::new();
    let pkt = GameEvent::PlayerLeave { player_id: 5 }.to_packet_bytes(&mut ids);
    assert_eq!(pkt.len(), 7);
    assert_eq!(pkt[0], 0x7a);
    assert_eq!(pkt[1], 0x00);
    assert_eq!(pkt[6], 0);
}

#[test]
fn player_move_to_packet_bytes_returns_0x0086() {
    let mut ids = EntityIds::new();
    let event = GameEvent::PlayerMove { player_id: 9, from_x: 50, from_y: 60, to_x: 55, to_y: 65 };
    let pkt = event.to_packet_bytes(&mut ids);
    assert_eq!(pkt.len(), 16);
    assert_eq!(pkt[0], 0x86);
    assert_eq!(pkt[1], 0x00);
}

#[test]
fn mob_spawn_to_packet_bytes_returns_0x0078_with_entity_type_6() {
    let mut ids = EntityIds::new();
    let event = GameEvent::MobSpawn { mob_id: 3, mob_type: 1001, x: 150, y: 250 };
    let pkt = event.to_packet_bytes(&mut ids);
    assert_eq!(pkt.len(), 63);
    assert_eq!(pkt[0], 0x78);
    assert_eq!(pkt[1], 0x00);
    let job = u16::from_le_bytes([pkt[16], pkt[17]]);
    assert_eq!(job, 1001);
}

#[test]
fn mob_death_to_packet_bytes_returns_0x007a() {
    let mut ids = EntityIds::new();
    let pkt = GameEvent::MobDeath { mob_id: 1, killer_id: 2 }.to_packet_bytes(&mut ids);
    assert_eq!(pkt.len(), 7);
    assert_eq!(pkt[0], 0x7a);
    assert_eq!(pkt[1], 0x00);
}

#[test]
fn unimplemented_events_return_empty_vec() {
    let mut ids = EntityIds::new();
    let event = GameEvent::PlayerAttack { attacker_id: 1, target_id: 2, damage: 100, is_crit: false, killed: false };
    assert!(event.to_packet_bytes(&mut ids).is_empty());
    let event = GameEvent::PlayerChat { player_id: 1, message: "hello".to_string(), chat_type: ChatType::OnMap };
    assert!(event.to_packet_bytes(&mut ids).is_empty());
    let event = GameEvent::ItemDrop { item_id: 1001, x: 10, y: 20, amount: 1 };
    assert!(event.to_packet_bytes(&mut ids).is_empty());
}

#[test]
fn get_entity_id_is_consistent_for_same_uuid() {
    let mut ids = EntityIds::new();
    let eid1 = ids.get_entity_id(1234);
    let eid2 = ids.get_entity_id(1234);
    assert_eq!(eid1, eid2);
}

#[test]
fn get_entity_id_returns_unique_ids_for_different_uuids() {
    let mut ids = EntityIds::new();
    let eid1 = ids.get_entity_id(1);
    let eid2 = ids.get_entity_id(2);
    assert_ne!(eid1, eid2);
}

#[test]
fn appear_packet_carries_the_entity_id() {
    let pkt = build_entity_appear_packet(0x01020304, 6, 1, 2, 1002, 0);
    assert_eq!(&pkt[2..6], &[4, 3, 2, 1]);
    assert_eq!(map_channel_name("prontera"), "map:prontera");
}

#[test]
fn test_respawn_service_new() {
    let service = RespawnService::new();
    let default = service.get_global_default();
    assert_eq!(default.map_name, "prontera");
    assert_eq!(default.x, 157);
    assert_eq!(default.y, 183);
}

#[test]
fn test_with_default() {
    let service = RespawnService::new().with_default("new_1-1", 53, 111);
    let default = service.get_global_default();
    assert_eq!(default.map_name, "new_1-1");
    assert_eq!(default.x, 53);
    assert_eq!(default.y, 111);
}

#[test]
fn test_add_map_default() {
    let mut service = RespawnService::new();
    service.add_map_default("prontera", 150, 180);
    let map_default = service.get_map_default("prontera");
    assert!(map_default.is_some());
    let md = map_default.unwrap();
    assert_eq!(md.x, 150);
    assert_eq!(md.y, 180);
}

#[test]
fn test_get_respawn_position_normal_with_map_default() {
    let mut service = RespawnService::new();
    service.add_map_default("prontera", 150, 180);
    let (x, y, map) = service.get_respawn_position("prontera", (100, 100), RespawnType::Normal);
    assert_eq!(x, 150);
    assert_eq!(y, 180);
    assert_eq!(map, "prontera");
}

#[test]
fn test_get_respawn_position_normal_without_map_default_returns_player_position() {
    let service = RespawnService::new();
    let (x, y, map) = service.get_respawn_position("unknown_map", (100, 100), RespawnType::Normal);
    assert_eq!(x, 100);
    assert_eq!(y, 100);
    assert_eq!(map, "unknown_map");
}

#[test]
fn test_get_respawn_position_instant_call() {
    let mut service = RespawnService::new();
    service.add_map_default("prontera", 150, 180);
    let (x, y, map) = service.get_respawn_position("prontera", (100, 100), RespawnType::InstantCall);
    assert_eq!(x, 150);
    assert_eq!(y, 180);
    assert_eq!(map, "prontera");
}

#[test]
fn test_get_respawn_position_instant_call_without_map_default() {
    let service = RespawnService::new();
    let (x, y, map) = service.get_respawn_position("unknown_map", (100, 100), RespawnType::InstantCall);
    assert_eq!(x, 100);
    assert_eq!(y, 100);
    assert_eq!(map, "unknown_map");
}

#[test]
fn test_respawn_point_creation() {
    let point = RespawnPoint::new("test_map", 100, 200);
    assert_eq!(point.map_name, "test_map");
    assert_eq!(point.x, 100);
    assert_eq!(point.y, 200);
}

#[test]
fn test_respawn_point_clone() {
    let point1 = RespawnPoint::new("test", 1, 2);
    let point2 = point1.clone();
    assert_eq!(point1, point2);
}

#[test]
fn test_map_edge_trigger_north() {
    let edge = MapEdge::North { y_threshold: 5 };
    assert!(edge.is_triggered(10, 0));
    assert!(edge.is_triggered(10, 5));
    assert!(!edge.is_triggered(10, 6));
    assert!(!edge.is_triggered(10, 100));
}

#[test]
fn test_map_edge_trigger_south() {
    let edge = MapEdge::South { y_threshold: 195 };
    assert!(!edge.is_triggered(10, 0));
    assert!(edge.is_triggered(10, 195));
    assert!(edge.is_triggered(10, 199));
}

#[test]
fn test_map_edge_trigger_east() {
    let edge = MapEdge::East { x_threshold: 250 };
    assert!(!edge.is_triggered(100, 10));
    assert!(edge.is_triggered(250, 10));
    assert!(edge.is_triggered(300, 10));
}

#[test]
fn test_map_edge_trigger_west() {
    let edge = MapEdge::West { x_threshold: 5 };
    assert!(edge.is_triggered(0, 10));
    assert!(edge.is_triggered(5, 10));
    assert!(!edge.is_triggered(6, 10));
}

#[test]
fn test_teleport_manager_new() {
    let manager = TeleportManager::new();
    assert_eq!(manager.adjacency_count(), 0);
    assert!(!manager.has_adjacencies_from("prontera.gat"));
}

#[test]
fn test_add_adjacency() {
    let mut manager = TeleportManager::new();
    let adj = MapAdjacency { from_map: "test_map.gat".to_string(), edge: MapEdge::North { y_threshold: 0 }, to_map: "other_map.gat".to_string(), entry_offset: (0, 100) };
    manager.add_adjacency(adj);
    assert_eq!(manager.adjacency_count(), 1);
    assert!(manager.has_adjacencies_from("test_map.gat"));
}

#[test]
fn test_check_warp_trigger_north() {
    let mut manager = TeleportManager::new();
    manager.add_adjacency(MapAdjacency { from_map: "new_1-1.gat".to_string(), edge: MapEdge::North { y_threshold: 0 }, to_map: "prontera.gat".to_string(), entry_offset: (0, 299) });
    let result = manager.check_warp_trigger("new_1-1.gat", 50, 0);
    assert!(result.is_some());
    let action = result.unwrap();
    assert_eq!(action.from_map, "new_1-1.gat");
    assert_eq!(action.to_map, "prontera.gat");
    assert_eq!(action.from_pos, (50, 0));
    assert_eq!(action.to_pos, (50, 299));
}

#[test]
fn test_check_warp_trigger_no_trigger() {
    let mut manager = TeleportManager::new();
    manager.add_adjacency(MapAdjacency { from_map: "new_1-1.gat".to_string(), edge: MapEdge::North { y_threshold: 0 }, to_map: "prontera.gat".to_string(), entry_offset: (0, 299) });
    assert!(manager.check_warp_trigger("new_1-1.gat", 50, 50).is_none());
}

#[test]
fn test_check_warp_trigger_unknown_map() {
    let manager = TeleportManager::new();
    assert!(manager.check_warp_trigger("unknown.gat", 50, 50).is_none());
}

#[test]
fn test_check_warp_trigger_south() {
    let mut manager = TeleportManager::new();
    manager.add_adjacency(MapAdjacency { from_map: "new_1-1.gat".to_string(), edge: MapEdge::South { y_threshold: 199 }, to_map: "prontera.gat".to_string(), entry_offset: (0, -199) });
    let action = manager.check_warp_trigger("new_1-1.gat", 50, 199).unwrap();
    assert_eq!(action.to_pos, (50, 0));
}

#[test]
fn test_check_warp_trigger_with_negative_offset() {
    let mut manager = TeleportManager::new();
    manager.add_adjacency(MapAdjacency { from_map: "test.gat".to_string(), edge: MapEdge::West { x_threshold: 0 }, to_map: "other.gat".to_string(), entry_offset: (-100, 0) });
    let action = manager.check_warp_trigger("test.gat", 0, 50).unwrap();
    assert_eq!(action.to_pos, (0, 50));
}

#[test]
fn test_default_adjacencies() {
    let defaults = TeleportManager::get_default_adjacencies();
    assert_eq!(defaults.len(), 4);
    let north = defaults.iter().find(|a| a.from_map == "new_1-1.gat" && matches!(a.edge, MapEdge::North { .. })).unwrap();
    assert_eq!(north.to_map, "prontera.gat");
    assert_eq!(north.entry_offset, (0, 299));
    let south = defaults.iter().find(|a| a.from_map == "new_1-1.gat" && matches!(a.edge, MapEdge::South { .. })).unwrap();
    assert_eq!(south.to_map, "prontera.gat");
    assert_eq!(south.entry_offset, (0, -199));
    let prontera_south = defaults.iter().find(|a| a.from_map == "prontera.gat" && matches!(a.edge, MapEdge::South { .. }));
    assert_eq!(prontera_south.unwrap().to_map, "new_1-1.gat");
    let prontera_north = defaults.iter().find(|a| a.from_map == "prontera.gat" && matches!(a.edge, MapEdge::North { .. }));
    assert_eq!(prontera_north.unwrap().to_map, "new_1-1.gat");
}

#[test]
fn test_save_point_creation() {
    let save_point = SavePoint { map_name: "prontera.gat".to_string(), x: 150, y: 180 };
    assert_eq!(save_point.map_name, "prontera.gat");
    assert_eq!(save_point.x, 150);
    assert_eq!(save_point.y, 180);
}

#[test]
fn test_teleport_action_equality() {
    let action1 = TeleportAction { from_map: "a.gat".to_string(), to_map: "b.gat".to_string(), from_pos: (10, 20), to_pos: (30, 40) };
    let action2 = TeleportAction { from_map: "a.gat".to_string(), to_map: "b.gat".to_string(), from_pos: (10, 20), to_pos: (30, 40) };
    assert_eq!(action1, action2);
}

#[test]
fn test_can_warp_without_cooldown() {
    let manager = TeleportManager::new();
    assert!(manager.can_warp(42, 5_000));
}

#[test]
fn test_warp_cooldown_prevents_spam() {
    let mut manager = TeleportManager::new();
    manager.record_warp(42, 5_000);
    assert!(!manager.can_warp(42, 5_000));
    assert!(!manager.can_warp(42, 5_999));
    assert!(manager.can_warp(42, 6_000));
}

#[test]
fn test_check_and_trigger_warp_returns_none_on_cooldown() {
    let mut manager = TeleportManager::new();
    manager.add_adjacency(MapAdjacency { from_map: "map1".to_string(), edge: MapEdge::North { y_threshold: 0 }, to_map: "map2".to_string(), entry_offset: (0, 100) });
    assert!(manager.check_and_trigger_warp(42, "map1", 50, 0, 10_000).is_some());
    assert!(manager.check_and_trigger_warp(42, "map1", 50, 0, 10_100).is_none());
}

#[test]
fn test_cleanup_expired_cooldowns() {
    let mut manager = TeleportManager::new();
    manager.record_warp(42, 1_000);
    manager.record_warp(43, 2_500);
    manager.cleanup_expired_cooldowns(3_000);
    assert!(manager.can_warp(42, 1_000));
    assert!(!manager.can_warp(43, 3_000));
}

#[test]
fn test_save_point_manager_new() {
    let manager = SavePointManager::new();
    assert!(!manager.has_save_point(1));
}

#[test]
fn test_save_point_manager_set_and_get() {
    let mut manager = SavePointManager::new();
    let save_point = SavePoint::new("prontera.gat", 150, 180);
    manager.set_save_point(1, save_point.clone());
    let retrieved = manager.get_save_point(1);
    assert!(retrieved.is_some());
    assert_eq!(retrieved.unwrap().map_name, "prontera.gat");
    assert_eq!(retrieved.unwrap().x, 150);
    assert_eq!(retrieved.unwrap().y, 180);
}

#[test]
fn test_save_point_manager_has_save_point() {
    let mut manager = SavePointManager::new();
    assert!(!manager.has_save_point(1));
    manager.set_save_point(1, SavePoint::new("map.gat", 100, 100));
    assert!(manager.has_save_point(1));
}

#[test]
fn test_save_point_manager_remove() {
    let mut manager = SavePointManager::new();
    manager.set_save_point(1, SavePoint::new("map.gat", 100, 100));
    let removed = manager.remove_save_point(1);
    assert!(removed.is_some());
    assert!(!manager.has_save_point(1));
}

#[test]
fn warp_error_messages() {
    assert_eq!(WarpError::PlayerNotFound.message(), "Player not found");
    assert_eq!(WarpError::DatabaseError("x".to_string()).message(), "Database error: x");
}

#[test]
fn map_database_defaults_and_lookup() {
    let db = MapDatabase::new();
    assert!(db.get("prontera.gat").is_some());
    assert!(db.get("nowhere.gat").is_none());
}

#[test]
fn channel_names_use_hyphenated_uuids() {
    assert_eq!(map_channel_name("prontera.gat"), "map:prontera.gat");
    assert_eq!(party_channel_name(0x0123456789abcdef0123456789abcdef), "party:01234567-89ab-cdef-0123-456789abcdef");
    assert_eq!(guild_channel_name(1), "guild:00000000-0000-0000-0000-000000000001");
}

#[test]
fn all_walkable_map_always_yields_a_position() {
    let map = MapData::new("open", 7, 5);
    let rng = ro_world::rng::ThreadRng;
    for _ in 0..20 {
        let (x, y) = map.random_walkable_pos(&rng).unwrap();
        assert!(x < 7 && y < 5);
    }
}

#[test]
fn thread_rng_stays_in_range() {
    let rng = ro_world::rng::ThreadRng;
    for _ in 0..100 {
        let v = rng.rand_range(3, 9);
        assert!((3..=9).contains(&v));
        assert!(rng.rand_bp(50) <= 9999);
    }
    assert_eq!(rng.rand_range(9, 3), 9);
}
