use ro_world::mob::droptable::{DropTableEntry, DropTableLoader};
use ro_world::mob::spawn::{MobSpawnManager, SpawnPoint};
use ro_world::text::parse_u32;

fn entry(item_id: u32) -> DropTableEntry {
    DropTableEntry { item_id, min_amount: 1, max_amount: 1, chance: 100, is_zeny: false, is_mvp_bonus: false }
}

#[test]
fn decimal_ids_parse_like_std() {
    for s in ["0", "1001", "+7", "4294967295", "007", "", "+", "-1", "12a", "4294967296", " 1", "99999999999"] {
        assert_eq!(parse_u32(s), s.parse::<u32>().ok(), "input {:?}", s);
    }
}

#[test]
fn drop_tables_are_keyed_by_monster_id() {
    let entries = vec![
        ("1001".to_string(), vec![entry(501), entry(502)]),
        ("1002".to_string(), vec![entry(909)]),
        ("+1001".to_string(), vec![entry(503)]),
    ];
    let tables = DropTableLoader::tables_from(&entries).unwrap();
    assert_eq!(tables.len(), 2);
    let t = tables.get(&1001).unwrap();
    assert_eq!(t.entries().len(), 1);
    assert_eq!(t.entries()[0].item_id, 503);
    assert_eq!(tables.get(&1002).unwrap().entries()[0].item_id, 909);
}

#[test]
fn a_bad_monster_id_is_reported() {
    let entries = vec![
        ("1001".to_string(), vec![entry(501)]),
        ("poring".to_string(), vec![entry(909)]),
        ("x".to_string(), vec![]),
    ];
    assert_eq!(DropTableLoader::tables_from(&entries).unwrap_err(), "poring");
}

#[test]
fn active_monsters_of_every_map() {
    let mut m = MobSpawnManager::new();
    m.register_mob("prontera.gat", 1);
    m.register_mob("prontera.gat", 2);
    m.register_mob("new_1-1.gat", 3);
    let mut all = m.get_all_active_mobs();
    all.sort();
    assert_eq!(all, vec![1, 2, 3]);
    assert_eq!(m.get_active_mobs("prontera.gat"), vec![1, 2]);
    m.unregister_mob("prontera.gat", 1, 1000);
    let mut all = m.get_all_active_mobs();
    all.sort();
    assert_eq!(all, vec![2, 3]);
    assert!(m.check_respawn(5999).is_empty());
    assert_eq!(m.check_respawn(6000), vec![1]);
    assert!(m.check_respawn(7000).is_empty());
}

#[test]
fn default_spawns() {
    let mut m = MobSpawnManager::new();
    m.init_default_spawns();
    let p = m.get_spawns("prontera.gat");
    assert_eq!(p, vec![
        SpawnPoint { mob_id: 1001, x: 100, y: 100, count: 10, interval: 10000 },
        SpawnPoint { mob_id: 1002, x: 150, y: 120, count: 5, interval: 15000 },
    ]);
    assert_eq!(m.get_spawns("new_1-1.gat").len(), 2);
    assert!(m.get_spawns("geffen.gat").is_empty());
}
