use ldd_nat_cross_rclient::registry::LocalManager;

#[test]
fn get_returns_sender_until_removed() {
    let mut reg: LocalManager<u64> = LocalManager::new();
    reg.put_sender("v1".to_string(), 41);
    reg.put_sender("v2".to_string(), 42);
    assert_eq!(reg.get_sender("v1"), Some(&41));
    assert_eq!(reg.get_sender("v2"), Some(&42));
    assert!(reg.remove_sender("v1"));
    assert_eq!(reg.get_sender("v1"), None);
    assert_eq!(reg.get_sender("v2"), Some(&42));
}

#[test]
fn put_overwrites_prior_entry_for_same_id() {
    let mut reg: LocalManager<u64> = LocalManager::new();
    reg.put_sender("v1".to_string(), 1);
    reg.put_sender("v1".to_string(), 2);
    assert_eq!(reg.get_sender("v1"), Some(&2));
    assert_eq!(reg.len(), 1);
}

#[test]
fn remove_of_absent_id_reports_false_and_changes_nothing() {
    let mut reg: LocalManager<u64> = LocalManager::new();
    reg.put_sender("v1".to_string(), 1);
    assert!(!reg.remove_sender("v9"));
    assert_eq!(reg.len(), 1);
    assert!(reg.remove_sender("v1"));
    assert!(!reg.remove_sender("v1"));
    assert_eq!(reg.len(), 0);
}

#[test]
fn get_of_never_registered_id_is_not_found() {
    let reg: LocalManager<u64> = LocalManager::new();
    assert_eq!(reg.get_sender("nobody"), None);
}
