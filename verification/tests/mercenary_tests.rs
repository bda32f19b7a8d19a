use std::time::{SystemTime, UNIX_EPOCH};

use ro_world::mercenary::data::{Mercenary, MercenaryClass, MercenaryDatabase};
use ro_world::mercenary::manager::{mercenary_from_row, mercenary_row, MercenaryError, MercenaryManager, MercenaryRow};
use ro_world::mercenary::data::MercenaryData;

fn now_ms() -> i64 {
    SystemTime::now().duration_since(UNIX_EPOCH).unwrap().as_millis() as i64
}

fn test_mercenary(contract_end: Option<i64>) -> Mercenary {
    Mercenary {
        mercenary_id: 1,
        owner_id: 100,
        mercenary_class: 6017,
        name: "Test".to_string(),
        level: 20,
        hp: 256,
        max_hp: 256,
        sp: 200,
        max_sp: 200,
        atk: 170,
        defense: 7,
        magic_defense: 5,
        str: 1,
        agi: 16,
        vit: 5,
        int_: 1,
        dex: 28,
        luk: 8,
        hit: 28,
        flee: 16,
        walk_speed: 150,
        attack_range: 10,
        loyalty: 100,
        contract_end,
        contract_cost: 5000,
        alive: true,
        skills: Vec::new(),
    }
}

/// Hires a mercenary and keeps it in memory, as storing it would.
fn create(manager: &mut MercenaryManager, owner: u32, class_id: u16) -> Result<Mercenary, MercenaryError> {
    let m = manager.prepare_create(owner, class_id)?;
    manager.remember(m.clone());
    Ok(m)
}

fn create_test_manager() -> MercenaryManager {
    MercenaryManager::new_hardcoded(0)
}

#[test]
fn test_mercenary_database_hardcoded() {
    let db = MercenaryDatabase::new_hardcoded();
    assert!(db.count() >= 5);
    let mina = db.get(6017).unwrap();
    assert_eq!(mina.name, "Mina");
    assert_eq!(mina.class_type, MercenaryClass::Archer);
    assert_eq!(mina.level, 20);
}

#[test]
fn test_mercenary_database_all_types() {
    let db = MercenaryDatabase::new_hardcoded();
    assert_eq!(db.get(6017).unwrap().class_type, MercenaryClass::Archer);
    assert_eq!(db.get(6019).unwrap().class_type, MercenaryClass::Lancer);
    assert_eq!(db.get(6020).unwrap().class_type, MercenaryClass::Swordman);
}

#[test]
fn test_mercenary_contract() {
    let merc = test_mercenary(Some(now_ms() + 3_600_000));
    assert!(!merc.is_contract_expired());
    assert!(merc.contract_remaining_secs() > 0);
}

#[test]
fn contract_arithmetic_at_fixed_times() {
    let merc = test_mercenary(Some(10_000));
    assert!(!merc.is_contract_expired_at(9_999));
    assert!(merc.is_contract_expired_at(10_000));
    assert_eq!(merc.contract_remaining_secs_at(0), 10);
    assert_eq!(merc.contract_remaining_secs_at(8_500), 1);
    assert_eq!(merc.contract_remaining_secs_at(20_000), 0);
    let open = test_mercenary(None);
    assert!(!open.is_contract_expired());
    assert_eq!(open.contract_remaining_secs(), 0);
}

#[test]
fn test_mercenary_loyalty() {
    let mut merc = test_mercenary(None);
    merc.increase_loyalty(50);
    assert_eq!(merc.loyalty, 150);
    merc.increase_loyalty(900);
    assert_eq!(merc.loyalty, 1000);
    merc.decrease_loyalty(200);
    assert_eq!(merc.loyalty, 800);
    merc.decrease_loyalty(9999);
    assert_eq!(merc.loyalty, 0);
}

#[test]
fn test_mercenary_damage() {
    let mut merc = test_mercenary(None);
    merc.take_damage(100);
    assert_eq!(merc.hp, 156);
    assert!(merc.alive);
    merc.take_damage(9999);
    assert_eq!(merc.hp, 0);
    assert!(!merc.alive);
}

#[test]
fn test_create_mercenary() {
    let mut manager = create_test_manager();
    let merc = create(&mut manager, 100, 6017).unwrap();
    assert_eq!(merc.owner_id, 100);
    assert_eq!(merc.name, "Mina");
    assert_eq!(merc.level, 20);
    assert!(merc.alive);
    assert!(merc.contract_end.is_some());
    assert_eq!(merc.loyalty, 100);
}

#[test]
fn create_at_fixed_time_runs_two_days() {
    let mut manager = MercenaryManager::new_hardcoded(41);
    let merc = manager.prepare_create_at(7, 6017, 1_000).unwrap();
    assert_eq!(merc.mercenary_id, 42);
    assert_eq!(merc.contract_end, Some(1_000 + 48 * 3600 * 1000));
    assert_eq!(merc.hp, merc.max_hp);
    let next = manager.prepare_create_at(7, 6017, 1_000).unwrap();
    assert_eq!(next.mercenary_id, 43);
}

#[test]
fn test_create_mercenary_not_found() {
    let mut manager = create_test_manager();
    assert!(matches!(create(&mut manager, 100, 9999), Err(MercenaryError::NotFound(9999))));
}

#[test]
fn test_summon_dismiss() {
    let mut manager = create_test_manager();
    let merc = create(&mut manager, 100, 6017).unwrap();
    assert!(manager.summon(100, merc.mercenary_id).is_ok());
    assert!(manager.get_summoned(100).is_some());
    manager.dismiss(100);
    assert!(manager.get_summoned(100).is_none());
}

#[test]
fn test_cannot_summon_twice() {
    let mut manager = create_test_manager();
    let merc1 = create(&mut manager, 100, 6017).unwrap();
    let merc2 = create(&mut manager, 100, 6018).unwrap();
    manager.summon(100, merc1.mercenary_id).unwrap();
    assert!(matches!(manager.summon(100, merc2.mercenary_id), Err(MercenaryError::AlreadySummoned)));
}

#[test]
fn test_wrong_owner() {
    let mut manager = create_test_manager();
    let merc = create(&mut manager, 100, 6017).unwrap();
    assert!(matches!(manager.summon(999, merc.mercenary_id), Err(MercenaryError::NotYours)));
}

#[test]
fn summon_unknown_and_dead_mercenaries_fail() {
    let mut manager = create_test_manager();
    assert!(matches!(manager.summon(100, 555), Err(MercenaryError::NotFound(555))));
    let mut merc = manager.prepare_create(100, 6017).unwrap();
    merc.take_damage(1_000_000);
    let id = merc.mercenary_id;
    manager.remember(merc);
    assert!(matches!(manager.summon(100, id), Err(MercenaryError::Dead)));
}

#[test]
fn test_contract_expired() {
    let mut manager = create_test_manager();
    let mut merc = manager.prepare_create(100, 6017).unwrap();
    merc.contract_end = Some(now_ms() - 3_600_000);
    let id = merc.mercenary_id;
    manager.remember(merc);
    assert!(matches!(manager.summon(100, id), Err(MercenaryError::ContractExpired)));
}

#[test]
fn test_loyalty() {
    let mut manager = create_test_manager();
    let merc = create(&mut manager, 100, 6017).unwrap();
    manager.increase_loyalty(merc.mercenary_id, 50).unwrap();
    let m = manager.get(merc.mercenary_id).unwrap();
    assert_eq!(m.loyalty, 150);
    assert!(matches!(manager.increase_loyalty(12345, 1), Err(MercenaryError::NotFound(12345))));
}

#[test]
fn test_update_contracts() {
    let mut manager = create_test_manager();
    let mut merc = manager.prepare_create(100, 6017).unwrap();
    let id = merc.mercenary_id;
    manager.remember(merc.clone());
    manager.summon(100, id).unwrap();
    merc.contract_end = Some(now_ms() - 1_000);
    manager.remember(merc);
    let dismissed = manager.update_contracts();
    assert_eq!(dismissed.len(), 1);
    assert_eq!(dismissed[0], 100);
    assert!(manager.get_summoned(100).is_none());
}

#[test]
fn expire_contracts_at_names_character_and_mercenary() {
    let mut manager = create_test_manager();
    let a = manager.prepare_create_at(100, 6017, 0).unwrap();
    let b = manager.prepare_create_at(200, 6019, 10_000_000_000).unwrap();
    manager.remember(a.clone());
    manager.remember(b.clone());
    manager.summon_at(100, a.mercenary_id, 1).unwrap();
    manager.summon_at(200, b.mercenary_id, 1).unwrap();
    let due = manager.expire_contracts_at(48 * 3600 * 1000);
    assert_eq!(due, vec![(100, a.mercenary_id)]);
    assert!(manager.get_summoned(100).is_none());
    assert!(manager.get_summoned(200).is_some());
}

#[test]
fn test_mercenary_skills_from_template() {
    let mut manager = create_test_manager();
    let merc = create(&mut manager, 100, 6017).unwrap();
    assert_eq!(merc.skills.len(), 2);
    assert_eq!(merc.skills[0].skill_name, "MA_DOUBLE");
    assert_eq!(merc.skills[0].max_level, 2);
}

#[test]
fn rows_are_read_with_defaults() {
    let row = MercenaryRow {
        mercenary_id: Some(5),
        owner_id: Some(100),
        mercenary_class: Some(6017),
        name: Some("Mina".to_string()),
        level: Some(20),
        hp: None,
        max_hp: None,
        sp: None,
        max_sp: None,
        atk: None,
        defense: None,
        magic_defense: None,
        str: None,
        agi: None,
        vit: None,
        int_: None,
        dex: None,
        luk: None,
        hit: None,
        flee: None,
        walk_speed: None,
        attack_range: None,
        loyalty: Some(150),
        contract_end: None,
        contract_cost: None,
        alive: Some(1),
        skills: vec![(Some("MA_DOUBLE".to_string()), Some(2))],
    };
    let m = mercenary_from_row(&row);
    assert_eq!(m.mercenary_id, 5);
    assert_eq!(m.owner_id, 100);
    assert_eq!(m.name, "Mina");
    assert_eq!(m.loyalty, 150);
    assert!(m.alive);
    assert_eq!(m.skills.len(), 1);
    let mut manager = create_test_manager();
    let loaded = manager.load_for_character(vec![row]);
    assert_eq!(loaded.len(), 1);
    assert!(manager.get(5).is_some());
}

fn bare_row(id: i32, level: i32) -> MercenaryRow {
    MercenaryRow {
        mercenary_id: Some(id),
        owner_id: Some(100),
        mercenary_class: Some(6017),
        name: None,
        level: Some(level),
        hp: None,
        max_hp: None,
        sp: None,
        max_sp: None,
        atk: None,
        defense: None,
        magic_defense: None,
        str: None,
        agi: None,
        vit: None,
        int_: None,
        dex: None,
        luk: None,
        hit: None,
        flee: None,
        walk_speed: None,
        attack_range: None,
        loyalty: None,
        contract_end: None,
        contract_cost: None,
        alive: None,
        skills: vec![],
    }
}

#[test]
fn loading_keeps_the_last_row_of_an_id() {
    let mut manager = create_test_manager();
    let loaded = manager.load_for_character(vec![bare_row(7, 3), bare_row(8, 4), bare_row(7, 9)]);
    assert_eq!(loaded.len(), 3);
    assert_eq!(loaded[0].level, 3);
    assert_eq!(loaded[2].level, 9);
    assert_eq!(loaded[1].hp, 1000);
    assert_eq!(loaded[1].walk_speed, 200);
    assert_eq!(manager.get(7).unwrap().level, 9);
    assert_eq!(manager.get(8).unwrap().level, 4);
    assert!(manager.get(9).is_none());
}

#[test]
fn error_messages() {
    assert_eq!(MercenaryError::NotFound(9999).message(), "雇佣兵未找到: 9999");
    assert_eq!(MercenaryError::AlreadySummoned.message(), "玩家已有召唤的雇佣兵");
    assert_eq!(MercenaryError::ContractExpired.message(), "合同已到期");
}

#[test]
fn contract_end_reads_in_milliseconds() {
    let mut row = bare_row(9, 1);
    row.contract_end = Some(1_700_000_000);
    let m = mercenary_from_row(&row);
    assert_eq!(m.contract_end, Some(1_700_000_000_000));
}

#[test]
fn builtin_manager_hires_mina() {
    let mut manager = MercenaryManager::new_hardcoded(0);
    let m = manager.prepare_create(100, 6017).unwrap();
    assert_eq!(m.name, "Mina");
    assert_eq!(m.level, 20);
}

#[test]
fn test_persistence_create_and_load_row() {
    let mut manager = create_test_manager();
    let m = manager.prepare_create(100, 6017).unwrap();
    let row = mercenary_row(&m);
    assert_eq!(row.mercenary_id, Some(m.mercenary_id as i32));
    assert_eq!(row.alive, Some(1));
    let back = mercenary_from_row(&row);
    assert_eq!(back.mercenary_id, m.mercenary_id);
    assert_eq!(back.owner_id, 100);
    assert_eq!(back.mercenary_class, 6017);
    assert_eq!(back.name, m.name);
    assert_eq!(back.level, m.level);
    assert_eq!(back.hp, m.hp);
    assert_eq!(back.max_hp, m.max_hp);
    assert_eq!(back.loyalty, m.loyalty);
    assert_eq!(back.contract_end, m.contract_end.map(|ms| ms / 1000 * 1000));
    assert_eq!(back.skills.len(), m.skills.len());
}

#[test]
fn negative_contract_end_rounds_down() {
    let mut m = test_mercenary(Some(-1500));
    m.skills.clear();
    assert_eq!(mercenary_row(&m).contract_end, Some(-2));
}

#[test]
fn empty_template_file_falls_back_to_builtin() {
    let db = MercenaryDatabase::from_loaded_or_builtin(Some(Vec::<(u16, MercenaryData)>::new()));
    assert!(db.get(6017).is_some());
    let db = MercenaryDatabase::from_loaded_or_builtin(None);
    assert!(db.get(6021).is_some());
}
