use q_body::trust::{TrustEntry, TrustStore};

fn temp_store() -> TrustStore {
    TrustStore::empty_at("/tmp/q-body-trust-test/trust.db")
}

#[test]
fn trust_test_new_store_is_empty() {
    let store = temp_store();
    assert_eq!(store.len(), 0);
    assert!(!store.is_trusted("/some/path"));
}

#[test]
fn test_mark_and_check_trusted() {
    let mut store = temp_store();
    store.mark_trusted("/home/user/project", None).unwrap();
    assert!(store.is_trusted("/home/user/project"));
    assert_eq!(store.len(), 1);
}

#[test]
fn test_revoke_trust() {
    let mut store = temp_store();
    store.mark_trusted("/home/user/project", None).unwrap();
    assert!(store.is_trusted("/home/user/project"));
    store.revoke("/home/user/project");
    assert!(!store.is_trusted("/home/user/project"));
    assert_eq!(store.len(), 0);
}

#[test]
fn test_expired_trust_is_not_trusted() {
    let mut store = temp_store();
    store.mark_trusted_at("/tmp/ephemeral", Some(1), 1000);
    assert!(store.is_trusted_at("/tmp/ephemeral", 1000));
    assert!(!store.is_trusted_at("/tmp/ephemeral", 1002));
}

#[test]
fn test_list_trusted_excludes_expired() {
    let mut store = temp_store();
    store.mark_trusted_at("/perm", None, 1000);
    store.mark_trusted_at("/ephemeral", Some(1), 1000);
    let list = store.list_trusted_at(1002);
    assert_eq!(list.len(), 1);
    assert_eq!(list[0].project_path, "/perm");
}

#[test]
fn test_purge_expired() {
    let mut store = temp_store();
    store.mark_trusted_at("/perm", None, 1000);
    store.mark_trusted_at("/ephemeral", Some(1), 1000);
    assert!(store.purge_expired_at(1002));
    assert_eq!(store.len(), 1);
    assert!(store.is_trusted_at("/perm", 1002));
    assert!(!store.purge_expired_at(1003));
}

#[test]
fn trust_test_persistence_roundtrip() {
    let mut first = temp_store();
    first.mark_trusted_at("/persist", None, 1000);
    let saved: Vec<(String, TrustEntry)> = first
        .list_trusted_at(1000)
        .into_iter()
        .map(|e| (e.project_path.clone(), e.copy()))
        .collect();
    let store = TrustStore::from_entries("/tmp/q-body-trust-test/trust.db", saved, 1001);
    assert!(store.is_trusted_at("/persist", 1001));
    assert_eq!(store.len(), 1);
}

#[test]
fn expiry_is_at_the_boundary() {
    let e = TrustEntry::new_at("/p", Some(10), 100);
    assert!(!e.is_expired_at(109));
    assert!(e.is_expired_at(110));
    let forever = TrustEntry::new_at("/p", None, 100);
    assert!(!forever.is_expired_at(u64::MAX));
}

#[test]
fn remarking_replaces_the_entry() {
    let mut store = temp_store();
    store.mark_trusted_at("/p", Some(1), 1000);
    store.mark_trusted_at("/p", None, 2000);
    assert_eq!(store.len(), 1);
    assert!(store.is_trusted_at("/p", 5000));
    assert_eq!(store.db_path(), "/tmp/q-body-trust-test/trust.db");
}

#[test]
fn expiry_overflow_is_decided_at_a_given_time() {
    let mut store = temp_store();
    assert!(store.try_mark_trusted_at("/p", Some(u64::MAX), 1).is_err());
    assert_eq!(store.len(), 0);
    assert!(store.try_mark_trusted_at("/p", Some(u64::MAX - 1), 1).is_ok());
    assert!(store.is_trusted_at("/p", 5));
    assert!(store.try_mark_trusted_at("/q", None, u64::MAX).is_ok());
    assert_eq!(store.len(), 2);
    assert!(TrustEntry::try_new_at("/p", Some(10), u64::MAX - 5).is_none());
    let e = TrustEntry::try_new_at("/p", Some(10), 100).unwrap();
    assert_eq!(e.trusted_at, 100);
    assert_eq!(e.expires_at, Some(110));
}

#[test]
fn a_reopened_store_keeps_its_trust() {
    let mut first = temp_store();
    assert_eq!(first.mark_trusted("/persist", None), Ok(()));
    assert!(first.try_mark_trusted_at("/gone", Some(1), 5).is_ok());
    let entries = first.entries();
    let saved: Vec<(String, TrustEntry)> = (0..entries.len())
        .map(|i| (entries.key_at(i).clone(), entries.value_at(i).copy()))
        .collect();
    let reopened = TrustStore::with_path("/tmp/q-body-trust-test/trust.db", saved);
    assert!(reopened.is_trusted("/persist"));
    assert_eq!(reopened.len(), 1);
    assert_eq!(reopened.db_path(), "/tmp/q-body-trust-test/trust.db");
}
