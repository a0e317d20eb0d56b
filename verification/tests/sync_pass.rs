use time_tracker::models::TimeEntry;
use time_tracker::store::Store;
use time_tracker::sync::{mark_entries_synced, sync_with_server, SyncError, SyncResponse};

fn entry(id: &str, activity: &str, timestamp: i64, last_modified: i64, synced: bool) -> TimeEntry {
    TimeEntry {
        id: id.to_string(),
        activity: activity.to_string(),
        elapsed: 30,
        description: None,
        tags: vec![],
        timestamp,
        last_modified,
        synced,
        sync_id: None,
        user_id: None,
    }
}

#[test]
fn a_confirmed_entry_ends_up_synced() {
    let mut store = Store::new();
    let a = entry("a", "writing", 10, 20, false);
    store.save_time_entry(&a);
    let outcome = Ok(SyncResponse {
        synced_ids: vec!["a".to_string()],
        entries: vec![a.clone()],
    });
    assert!(sync_with_server(&mut store, outcome).is_ok());
    let got = store.get_time_entry_by_id(&"a".to_string()).unwrap();
    assert!(got.synced);
}

#[test]
fn an_unknown_remote_entry_is_pulled_in() {
    let mut store = Store::new();
    store.save_time_entry(&entry("a", "mine", 10, 20, false));
    let mut b = entry("b", "theirs", 30, 40, true);
    b.sync_id = Some("srv-b".to_string());
    b.user_id = Some("other".to_string());
    let outcome = Ok(SyncResponse {
        synced_ids: vec![],
        entries: vec![b.clone()],
    });
    assert!(sync_with_server(&mut store, outcome).is_ok());
    assert_eq!(store.get_time_entry_by_id(&"b".to_string()), Some(b));
}

#[test]
fn a_failed_transport_changes_nothing() {
    let mut store = Store::new();
    store.save_time_entry(&entry("a", "mine", 10, 20, false));
    store.save_time_entry(&entry("b", "done", 30, 40, true));
    let before = store.get_all_time_entries();
    let outcome = Err(SyncError::Network("connection refused".to_string()));
    let r = sync_with_server(&mut store, outcome);
    assert!(matches!(r, Err(SyncError::Network(_))));
    assert_eq!(store.get_all_time_entries(), before);
}

#[test]
fn a_decode_failure_changes_nothing_either() {
    let mut store = Store::new();
    store.save_time_entry(&entry("a", "mine", 10, 20, false));
    let before = store.get_all_time_entries();
    let r = sync_with_server(&mut store, Err(SyncError::Decode("bad json".to_string())));
    assert!(matches!(r, Err(SyncError::Decode(_))));
    assert_eq!(store.get_all_time_entries(), before);
}

#[test]
fn a_deleted_entry_still_in_the_response_reappears() {
    let mut store = Store::new();
    let c = entry("c", "doomed", 10, 20, false);
    store.save_time_entry(&c);
    assert!(store.delete_time_entry(&"c".to_string()));
    assert_eq!(store.get_time_entry_by_id(&"c".to_string()), None);
    let outcome = Ok(SyncResponse {
        synced_ids: vec![],
        entries: vec![c.clone()],
    });
    assert!(sync_with_server(&mut store, outcome).is_ok());
    assert_eq!(store.get_time_entry_by_id(&"c".to_string()), Some(c));
}

#[test]
fn the_response_entry_is_applied_before_the_mark() {
    let mut store = Store::new();
    store.save_time_entry(&entry("a", "stale", 10, 20, false));
    let fresh = entry("a", "fresh", 11, 21, false);
    let outcome = Ok(SyncResponse {
        synced_ids: vec!["a".to_string()],
        entries: vec![fresh],
    });
    assert!(sync_with_server(&mut store, outcome).is_ok());
    let got = store.get_time_entry_by_id(&"a".to_string()).unwrap();
    assert_eq!(got.activity, "fresh".to_string());
    assert!(got.synced);
}

#[test]
fn an_empty_response_is_a_no_op() {
    let mut store = Store::new();
    store.save_time_entry(&entry("a", "mine", 10, 20, false));
    let before = store.get_all_time_entries();
    let outcome = Ok(SyncResponse { synced_ids: vec![], entries: vec![] });
    assert!(sync_with_server(&mut store, outcome).is_ok());
    assert_eq!(store.get_all_time_entries(), before);
}

#[test]
fn batch_mark_pairs_ids_with_sync_ids_by_position() {
    let mut store = Store::new();
    store.save_time_entry(&entry("a", "one", 1, 1, false));
    store.save_time_entry(&entry("b", "two", 2, 2, false));
    mark_entries_synced(
        &mut store,
        &vec!["a".to_string(), "b".to_string()],
        &vec![Some("srv-a".to_string()), None],
    );
    let a = store.get_time_entry_by_id(&"a".to_string()).unwrap();
    let b = store.get_time_entry_by_id(&"b".to_string()).unwrap();
    assert!(a.synced && b.synced);
    assert_eq!(a.sync_id, Some("srv-a".to_string()));
    assert_eq!(b.sync_id, None);
}

#[test]
fn batch_mark_stops_at_the_shorter_list() {
    let mut store = Store::new();
    store.save_time_entry(&entry("a", "one", 1, 1, false));
    store.save_time_entry(&entry("b", "two", 2, 2, false));
    mark_entries_synced(
        &mut store,
        &vec!["a".to_string(), "b".to_string()],
        &vec![Some("srv-a".to_string())],
    );
    assert!(store.get_time_entry_by_id(&"a".to_string()).unwrap().synced);
    assert!(!store.get_time_entry_by_id(&"b".to_string()).unwrap().synced);
}

#[test]
fn batch_mark_skips_unknown_ids() {
    let mut store = Store::new();
    store.save_time_entry(&entry("a", "one", 1, 1, false));
    mark_entries_synced(
        &mut store,
        &vec!["ghost".to_string(), "a".to_string()],
        &vec![None, Some("srv-a".to_string())],
    );
    let a = store.get_time_entry_by_id(&"a".to_string()).unwrap();
    assert!(a.synced);
    assert_eq!(a.sync_id, Some("srv-a".to_string()));
    assert_eq!(store.get_all_time_entries().len(), 1);
}
