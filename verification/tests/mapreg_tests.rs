use ro_world::mapreg::MapRegStore;
use ro_world::strmap::StrMap;

#[test]
fn test_read_write_int() {
    let mut store = MapRegStore::new();
    assert_eq!(store.read_int("$VAR", 0), 0);
    store.set_int("$VAR", 0, 42);
    assert_eq!(store.read_int("$VAR", 0), 42);
    store.set_int("$VAR", 0, 0);
    assert_eq!(store.read_int("$VAR", 0), 0);
}

#[test]
fn test_read_write_str() {
    let mut store = MapRegStore::new();
    assert_eq!(store.read_str("$VAR$", 0), None);
    store.set_str("$VAR$", 0, Some("hello"));
    assert_eq!(store.read_str("$VAR$", 0), Some("hello".to_string()));
    store.set_str("$VAR$", 0, Some(""));
    assert_eq!(store.read_str("$VAR$", 0), None);
    store.set_str("$VAR$", 0, Some("test"));
    store.set_str("$VAR$", 0, None);
    assert_eq!(store.read_str("$VAR$", 0), None);
}

#[test]
fn test_array_index() {
    let mut store = MapRegStore::new();
    store.set_int("$ARRAY", 0, 100);
    store.set_int("$ARRAY", 1, 200);
    store.set_int("$ARRAY", 2, 300);
    assert_eq!(store.read_int("$ARRAY", 0), 100);
    assert_eq!(store.read_int("$ARRAY", 1), 200);
    assert_eq!(store.read_int("$ARRAY", 2), 300);
}

#[test]
fn test_temporary_vs_permanent() {
    let mut store = MapRegStore::new();
    store.set_int("@TEMP", 0, 42);
    assert!(!store.is_dirty());
    store.set_int("$PERM", 0, 42);
    assert!(store.is_dirty());
    store.clear_dirty();
    assert!(!store.is_dirty());
}

#[test]
fn test_persistent_vars() {
    let mut store = MapRegStore::new();
    store.set_int("$PERM1", 0, 10);
    store.set_int("$PERM2", 1, 20);
    store.set_int("@TEMP", 0, 30);
    let persistent = store.get_persistent_int_vars();
    assert_eq!(persistent.len(), 2);
    assert_eq!(persistent.get("$PERM1"), Some(&10));
    assert_eq!(persistent.get("$PERM2:1"), Some(&20));
}

#[test]
fn test_load_from_db() {
    let mut store = MapRegStore::new();
    let mut ints = StrMap::new();
    ints.insert("$VAR1".to_string(), 100);
    ints.insert("$VAR2".to_string(), 200);
    let mut strs = StrMap::new();
    strs.insert("$STR1$".to_string(), "hello".to_string());
    store.load_from_db(ints, strs);
    assert_eq!(store.read_int("$VAR1", 0), 100);
    assert_eq!(store.read_int("$VAR2", 0), 200);
    assert_eq!(store.read_str("$STR1$", 0), Some("hello".to_string()));
    assert!(!store.is_dirty());
}

#[test]
fn test_load_skips_zero() {
    let mut store = MapRegStore::new();
    let mut ints = StrMap::new();
    ints.insert("$ZERO".to_string(), 0);
    ints.insert("$NONZERO".to_string(), 42);
    store.load_from_db(ints, StrMap::new());
    assert_eq!(store.read_int("$ZERO", 0), 0);
    assert_eq!(store.read_int("$NONZERO", 0), 42);
}

#[test]
fn test_reload() {
    let mut store = MapRegStore::new();
    store.set_int("$OLD", 0, 100);
    assert_eq!(store.read_int("$OLD", 0), 100);
    let mut new_ints = StrMap::new();
    new_ints.insert("$NEW".to_string(), 200);
    store.reload(new_ints, StrMap::new());
    assert_eq!(store.read_int("$OLD", 0), 0);
    assert_eq!(store.read_int("$NEW", 0), 200);
}

#[test]
fn test_clear() {
    let mut store = MapRegStore::new();
    store.set_int("$VAR", 0, 42);
    store.set_str("$STR$", 0, Some("test"));
    store.clear();
    assert_eq!(store.read_int("$VAR", 0), 0);
    assert_eq!(store.read_str("$STR$", 0), None);
    assert_eq!(store.int_count(), 0);
    assert_eq!(store.str_count(), 0);
}

#[test]
fn test_make_key() {
    assert_eq!(MapRegStore::make_key("$VAR", 0), "$VAR");
    assert_eq!(MapRegStore::make_key("$VAR", 1), "$VAR:1");
    assert_eq!(MapRegStore::make_key("$VAR", 42), "$VAR:42");
}

#[test]
fn test_is_permanent() {
    assert!(MapRegStore::is_permanent("$VAR"));
    assert!(MapRegStore::is_permanent("$VAR$"));
    assert!(!MapRegStore::is_permanent("@TEMP"));
    assert!(!MapRegStore::is_permanent("@@TEMP"));
}

#[test]
fn mapreg_index_keys_do_not_collide() {
    let mut store = MapRegStore::new();
    store.set_int("$A", 1, 5);
    store.set_int("$A", 10, 7);
    assert_eq!(store.read_int("$A", 1), 5);
    assert_eq!(store.read_int("$A", 10), 7);
    assert_eq!(store.read_int("$A", 0), 0);
}

#[test]
fn mapreg_persistent_strings_only_permanent() {
    let mut store = MapRegStore::new();
    store.set_str("$S$", 0, Some("x"));
    store.set_str("@T$", 0, Some("y"));
    let p = store.get_persistent_str_vars();
    assert_eq!(p.len(), 1);
    assert_eq!(p.get("$S$"), Some(&"x".to_string()));
    assert_eq!(store.autosave_interval(), 300);
    let store = store.with_autosave_interval(60);
    assert_eq!(store.autosave_interval(), 60);
}
