use ro_world::map::teleport::{
    MapAdjacency, MapEdge, SavePointManager, TeleportAction, TeleportManager, WarpError, WarpService, WarpSession,
};

fn service() -> WarpService {
    WarpService::new(TeleportManager::new(), SavePointManager::new())
}

fn service_with_edge() -> WarpService {
    let mut manager = TeleportManager::new();
    manager.add_adjacency(MapAdjacency {
        from_map: "map1".to_string(),
        edge: MapEdge::North { y_threshold: 0 },
        to_map: "map2".to_string(),
        entry_offset: (0, 100),
    });
    WarpService::new(manager, SavePointManager::new())
}

fn action() -> TeleportAction {
    TeleportAction { from_map: "map1".to_string(), to_map: "map2".to_string(), from_pos: (0, 0), to_pos: (100, 100) }
}

#[test]
fn test_warp_service_new() {
    let service = service();
    let _ = service;
}

#[test]
fn test_execute_warp_returns_error_without_player_id() {
    let service = service();
    let session = WarpSession { player_id: None, char_id: None };
    let result = service.execute_warp(&session, action());
    assert!(matches!(result, Err(WarpError::PlayerNotFound)));
}

#[test]
fn test_execute_warp_with_player_id() {
    let service = service();
    let session = WarpSession { player_id: Some(5), char_id: Some(1) };
    let result = service.execute_warp(&session, action());
    assert!(result.is_ok());
    let stored = result.unwrap().unwrap();
    assert_eq!(stored.char_id, 1);
    assert_eq!(stored.map_name, "map2");
    assert_eq!((stored.x, stored.y), (100, 100));
}

#[test]
fn test_handle_move_with_warp_on_map_triggers_warp() {
    let mut service = service_with_edge();
    let session = WarpSession { player_id: Some(5), char_id: None };
    let result = service.handle_move_with_warp_on_map(&session, "map1", 50, 0);
    let action = result.unwrap();
    assert_eq!(action.from_map, "map1");
    assert_eq!(action.to_map, "map2");
}

#[test]
fn test_handle_move_with_warp_on_map_no_trigger() {
    let mut service = service_with_edge();
    let session = WarpSession { player_id: Some(5), char_id: None };
    assert!(service.handle_move_with_warp_on_map(&session, "map1", 50, 50).is_none());
}

#[test]
fn warp_on_map_respects_the_cooldown_and_needs_a_player() {
    let mut service = service_with_edge();
    let session = WarpSession { player_id: Some(5), char_id: None };
    assert!(service.handle_move_with_warp_on_map_at(&session, "map1", 50, 0, 10_000).is_some());
    assert!(service.handle_move_with_warp_on_map_at(&session, "map1", 50, 0, 10_999).is_none());
    assert!(service.handle_move_with_warp_on_map_at(&session, "map1", 50, 0, 11_000).is_some());
    let nobody = WarpSession { player_id: None, char_id: None };
    assert!(service.handle_move_with_warp_on_map_at(&nobody, "map1", 50, 0, 20_000).is_none());
    assert!(service.handle_move_with_warp(&session, 50, 0).is_none());
}

#[test]
fn test_warp_service_set_and_get_save_point() {
    let mut service = service();
    assert!(service.get_save_point(1).is_none());
    service.set_save_point(1, "prontera.gat", 150, 180);
    let sp = service.get_save_point(1).unwrap();
    assert_eq!(sp.map_name, "prontera.gat");
    assert_eq!(sp.x, 150);
    assert_eq!(sp.y, 180);
}

#[test]
fn test_use_return_without_save_point_fails() {
    let service = service();
    let session = WarpSession { player_id: None, char_id: Some(1) };
    assert!(service.use_return(&session).is_err());
}

#[test]
fn test_use_return_with_save_point_succeeds() {
    let mut service = service();
    service.set_save_point(1, "prontera.gat", 150, 180);
    let session = WarpSession { player_id: Some(9), char_id: Some(1) };
    let action = service.use_return(&session).unwrap();
    assert_eq!(action.to_map, "prontera.gat");
    assert_eq!(action.to_pos, (150, 180));
}

#[test]
fn use_return_errors_in_order() {
    let mut service = service();
    service.set_save_point(1, "prontera.gat", 150, 180);
    let no_char = WarpSession { player_id: Some(9), char_id: None };
    assert!(matches!(service.use_return(&no_char), Err(WarpError::PlayerNotFound)));
    let no_point = WarpSession { player_id: Some(9), char_id: Some(2) };
    assert!(matches!(service.use_return(&no_point), Err(WarpError::InvalidTargetMap)));
    let no_player = WarpSession { player_id: None, char_id: Some(1) };
    assert!(matches!(service.use_return(&no_player), Err(WarpError::PlayerNotFound)));
}
