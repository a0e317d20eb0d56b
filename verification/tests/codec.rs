use time_tracker::models::{EntryRow, TimeEntry};

fn sample() -> TimeEntry {
    TimeEntry {
        id: "id-1".to_string(),
        activity: "writing".to_string(),
        elapsed: 60,
        description: Some("notes".to_string()),
        tags: vec!["a".to_string(), "b".to_string()],
        timestamp: 1_000,
        last_modified: 1_577_836_800_000,
        synced: true,
        sync_id: Some("srv-1".to_string()),
        user_id: Some("user-1".to_string()),
    }
}

#[test]
fn to_params_formats_the_persisted_columns() {
    let row = sample().to_params();
    assert_eq!(row.id, "id-1".to_string());
    assert_eq!(row.activity, "writing".to_string());
    assert_eq!(row.elapsed, 60);
    assert_eq!(row.description, Some("notes".to_string()));
    assert_eq!(row.timestamp, "1970-01-01T00:00:01+00:00".to_string());
    assert_eq!(row.tags, "[\"a\",\"b\"]".to_string());
    assert_eq!(row.last_modified, "2020-01-01T00:00:00+00:00".to_string());
    assert_eq!(row.synced, 1);
    assert_eq!(row.sync_id, Some("srv-1".to_string()));
    assert_eq!(row.user_id, Some("user-1".to_string()));
}

#[test]
fn to_params_writes_zero_for_unsynced() {
    let mut e = sample();
    e.synced = false;
    assert_eq!(e.to_params().synced, 0);
}

#[test]
fn row_round_trips_through_the_codec() {
    let e = sample();
    let back = TimeEntry::from_row(e.to_params(), 99_999);
    assert_eq!(back, e);
}

#[test]
fn from_row_parses_instants_and_tags() {
    let row = EntryRow {
        id: "id-2".to_string(),
        activity: "reading".to_string(),
        elapsed: 5,
        description: None,
        timestamp: "2020-01-01T00:00:00+00:00".to_string(),
        tags: "[\"x\"]".to_string(),
        last_modified: "1970-01-01T00:00:01+00:00".to_string(),
        synced: 0,
        sync_id: None,
        user_id: None,
    };
    let e = TimeEntry::from_row(row, 4_000);
    assert_eq!(e.timestamp, 1_577_836_800_000);
    assert_eq!(e.last_modified, 1_000);
    assert_eq!(e.tags, vec!["x".to_string()]);
    assert!(!e.synced);
}

#[test]
fn from_row_falls_back_to_now_for_a_bad_instant() {
    let mut row = sample().to_params();
    row.timestamp = "not a date".to_string();
    let e = TimeEntry::from_row(row, 4_000);
    assert_eq!(e.timestamp, 4_000);
    assert_eq!(e.last_modified, 1_577_836_800_000);
}

#[test]
fn from_row_falls_back_to_no_tags_for_bad_json() {
    let mut row = sample().to_params();
    row.tags = "{broken".to_string();
    let e = TimeEntry::from_row(row, 4_000);
    assert_eq!(e.tags, Vec::<String>::new());
}

#[test]
fn from_row_reads_any_nonzero_synced_as_true() {
    let mut row = sample().to_params();
    row.synced = 7;
    assert!(TimeEntry::from_row(row, 0).synced);
}

#[test]
fn tags_keep_duplicates_verbatim() {
    let mut e = sample();
    e.tags = vec!["a".to_string(), "a".to_string()];
    let back = TimeEntry::from_row(e.to_params(), 0);
    assert_eq!(back.tags, vec!["a".to_string(), "a".to_string()]);
}

#[test]
fn the_instant_bounds_round_trip_through_the_codec() {
    let mut e = sample();
    e.timestamp = time_tracker::models::TS_MIN_MS;
    e.last_modified = time_tracker::models::TS_MAX_MS;
    let row = e.to_params();
    assert_eq!(row.timestamp, "0000-01-01T00:00:00+00:00".to_string());
    assert_eq!(row.last_modified, "9999-12-31T23:59:59.999+00:00".to_string());
    let back = TimeEntry::from_row(row, 0);
    assert_eq!(back, e);
}

#[test]
fn out_of_range_instants_are_clamped_when_persisted() {
    let mut e = sample();
    e.timestamp = i64::MAX;
    e.last_modified = i64::MIN;
    let row = e.to_params();
    assert_eq!(row.timestamp, "9999-12-31T23:59:59.999+00:00".to_string());
    assert_eq!(row.last_modified, "0000-01-01T00:00:00+00:00".to_string());
}
