use tokenauth::store::RevocationStore;

#[test]
fn empty_store_revokes_nothing() {
    let s = RevocationStore::new();
    assert!(!s.is_token_revoked(1, 0));
    assert_eq!(s.get_user_cutoff(1, 0), None);
    assert_eq!(s.get_global_cutoff(0), None);
}

#[test]
fn denylist_until_expiry() {
    let mut s = RevocationStore::new();
    s.mark_token_revoked(7, 100);
    assert!(s.is_token_revoked(7, 50));
    assert!(s.is_token_revoked(7, 99));
    assert!(!s.is_token_revoked(7, 100));
    assert!(!s.is_token_revoked(8, 50));
}

#[test]
fn denylist_mark_twice_writes_once() {
    let mut s = RevocationStore::new();
    s.mark_token_revoked(7, 100);
    s.mark_token_revoked(7, 100);
    assert_eq!(s.denylist.len(), 1);
    // a later expiry raises the entry instead of adding one
    s.mark_token_revoked(7, 150);
    assert_eq!(s.denylist.len(), 1);
    assert!(s.is_token_revoked(7, 120));
    // an earlier expiry changes nothing
    s.mark_token_revoked(7, 90);
    assert!(s.is_token_revoked(7, 120));
}

#[test]
fn user_cutoff_only_rises() {
    let mut s = RevocationStore::new();
    s.set_user_cutoff(5, 100, 1_000);
    assert_eq!(s.get_user_cutoff(5, 0), Some(100));
    // a duplicate or delayed request with an earlier clock never regresses it
    s.set_user_cutoff(5, 40, 900);
    assert_eq!(s.get_user_cutoff(5, 0), Some(100));
    s.set_user_cutoff(5, 150, 1_100);
    assert_eq!(s.get_user_cutoff(5, 0), Some(150));
    assert_eq!(s.get_user_cutoff(6, 0), None);
    assert_eq!(s.user_cutoffs.len(), 1);
}

#[test]
fn user_cutoff_record_lapses() {
    let mut s = RevocationStore::new();
    s.set_user_cutoff(5, 100, 1_000);
    assert_eq!(s.get_user_cutoff(5, 999), Some(100));
    assert_eq!(s.get_user_cutoff(5, 1_000), None);
}

#[test]
fn global_cutoff_only_rises() {
    let mut s = RevocationStore::new();
    s.set_global_cutoff(100, 1_000);
    assert_eq!(s.get_global_cutoff(0), Some(100));
    s.set_global_cutoff(40, 900);
    assert_eq!(s.get_global_cutoff(0), Some(100));
    s.set_global_cutoff(150, 1_100);
    assert_eq!(s.get_global_cutoff(0), Some(150));
    assert_eq!(s.get_global_cutoff(1_100), None);
}

#[test]
fn cleanup_counts_and_keeps_live_records() {
    let mut s = RevocationStore::new();
    s.mark_token_revoked(1, 100);
    s.mark_token_revoked(2, 500);
    s.set_user_cutoff(5, 90, 100);
    s.set_user_cutoff(6, 90, 500);
    s.set_global_cutoff(90, 100);
    let removed = s.cleanup(200);
    assert_eq!(removed, 3);
    assert!(s.is_token_revoked(2, 300));
    assert!(!s.is_token_revoked(1, 300));
    assert_eq!(s.get_user_cutoff(6, 200), Some(90));
    assert_eq!(s.get_user_cutoff(5, 200), None);
    assert_eq!(s.get_global_cutoff(200), None);
    // cleanup again finds nothing stale
    assert_eq!(s.cleanup(200), 0);
}
