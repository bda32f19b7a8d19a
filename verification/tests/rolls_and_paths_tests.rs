use ro_world::map::cell::CellType;
use ro_world::map::enter::{enter_accept_packet, parse_enter_request};
use ro_world::map::channel::ChannelBus;
use ro_world::map::data::{MapData, MapDatabase};
use ro_world::map::gat::GatError;
use ro_world::mercenary::manager::stored_max_id;
use ro_world::mob::ai::mob_drops_for_rolls;
use ro_world::mob::data::{MobDatabase, MobDrop};
use ro_world::mob::droptable::{drops_for_rolls, DropTableEntry, MobDropTable};
use ro_world::mob::pathfinder::Pathfinder;

fn entry(item_id: u32, min_amount: u16, max_amount: u16, chance: u32, is_mvp_bonus: bool) -> DropTableEntry {
    DropTableEntry { item_id, min_amount, max_amount, chance, is_zeny: false, is_mvp_bonus }
}

#[test]
fn subscriber_for_takes_the_earliest_channel() {
    let mut bus = ChannelBus::new();
    let (tx1, _rx1) = tokio::sync::mpsc::unbounded_channel();
    let (tx2, _rx2) = tokio::sync::mpsc::unbounded_channel();
    bus.subscribe("map:prontera", 5, tx1, 10, 20);
    bus.subscribe("party:x", 5, tx2, 30, 40);
    let s = bus.subscriber_for(5).unwrap();
    assert_eq!((s.player_id, s.pos_x, s.pos_y), (5, 10, 20));
    assert!(bus.subscriber_for(6).is_none());
}

#[test]
fn diagonal_path_is_shortest() {
    let grid = MapData::new("open", 10, 10);
    let path = Pathfinder::find_path((1, 1), (4, 4), &grid, 10).unwrap();
    assert_eq!(path, vec![(2, 2), (3, 3), (4, 4)]);
}

#[test]
fn drop_lines_follow_their_rolls() {
    let table = MobDropTable::new(vec![
        entry(501, 1, 1, 5000, false),
        entry(502, 2, 5, 100, false),
        entry(503, 1, 1, 10000, true),
        entry(504, 3, 3, 10000, false),
    ]);
    let d = drops_for_rolls(&table, false, &vec![4999, 50, 0, 9999], &vec![0, 4, 0, 0]);
    assert_eq!(d, vec![(501, 1), (502, 4), (504, 3)]);
    let d = drops_for_rolls(&table, true, &vec![5000, 100, 0, 0], &vec![0, 4, 0, 0]);
    assert_eq!(d, vec![(503, 1), (504, 3)]);
}

#[test]
fn mob_drop_list_follows_its_rolls() {
    let drops = vec![
        MobDrop { item_id: 909, min_amount: 1, max_amount: 1, chance: 7000 },
        MobDrop { item_id: 910, min_amount: 2, max_amount: 4, chance: 500 },
        MobDrop { item_id: 911, min_amount: 1, max_amount: 1, chance: 100 },
    ];
    let r = mob_drops_for_rolls(&drops, &vec![16999, 10499, 100], &vec![0, 5, 0]);
    assert_eq!(r, vec![(909, 1), (910, 4)]);
}

#[test]
fn load_from_bytes_reports_the_parse_error_and_names_the_map() {
    let mut db = MapDatabase::empty();
    match db.load_from_bytes("x", &[1, 2]) {
        Err(GatError::IncompleteData { expected, actual }) => assert_eq!((expected, actual), (10, 2)),
        _ => panic!("expected IncompleteData"),
    }
    assert_eq!(db.len(), 0);
    let bytes = ro_world::map::gat::GatParser::to_gat_bytes(&MapData::new("field", 3, 2));
    db.load_from_bytes("field", &bytes).unwrap();
    assert_eq!(db.get("field.gat").unwrap().name, "field.gat");
}

#[test]
fn builtin_maps_fill_an_empty_load() {
    let (db, fresh) = MapDatabase::or_builtin(MapDatabase::empty());
    assert!(fresh);
    assert_eq!(db.len(), 3);
    let mut one = MapDatabase::empty();
    one.insert(MapData::new("solo.gat", 4, 4));
    let (db, fresh) = MapDatabase::or_builtin(one);
    assert!(!fresh);
    assert_eq!(db.len(), 1);
}

#[test]
fn builtin_monsters_replace_an_unread_file() {
    assert_eq!(MobDatabase::from_loaded_or_builtin(None).count(), 4);
    assert_eq!(MobDatabase::from_loaded_or_builtin(Some(vec![])).count(), 0);
}

#[test]
fn stored_max_id_defaults_to_zero() {
    assert_eq!(stored_max_id(Some(41)), 41);
    assert_eq!(stored_max_id(None), 0);
    assert_eq!(stored_max_id(Some(-1)), u32::MAX);
}

#[test]
fn enter_request_is_read_and_accepted() {
    assert!(parse_enter_request(&[1, 2, 3]).is_none());
    let mut data = vec![0x01, 0x02, 0x00, 0x00, 0x10, 0x00, 0x00, 0x01];
    data.extend_from_slice(b"token");
    let q = parse_enter_request(&data).unwrap();
    assert_eq!(q.account_id, 0x0201);
    assert_eq!(q.char_id, 0x0100_0010);
    assert_eq!(q.token, b"token".to_vec());
    let long = vec![7u8; 60];
    assert_eq!(parse_enter_request(&long).unwrap().token.len(), 32);
    assert_eq!(enter_accept_packet(), vec![0x2D, 0xD3, 0x00, 0x00]);
}

#[test]
fn maps_can_be_changed_in_place() {
    let mut db = MapDatabase::new();
    db.get_mut("prontera.gat").unwrap().set_cell(150, 150, CellType::Wall);
    assert!(!db.get("prontera.gat").unwrap().is_walkable(150, 150));
    assert!(db.get_mut("nowhere.gat").is_none());
    assert_eq!(db.len(), 3);
}

#[test]
fn all_lists_every_map_once() {
    let db = MapDatabase::new();
    let mut names: Vec<String> = db.all().iter().map(|m| m.name.clone()).collect();
    names.sort();
    assert_eq!(names, vec!["new_1-1.gat".to_string(), "prontera.gat".to_string(), "prt_sewb1.gat".to_string()]);
}

#[test]
fn estimate_measures_around_the_ring() {
    assert_eq!(ro_world::mob::pathfinder::heuristic(&(0, 0), &(65535, 3)), 3);
    assert_eq!(ro_world::mob::pathfinder::heuristic(&(1, 1), &(4, 6)), 5);
}
