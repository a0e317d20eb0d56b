use time_tracker::migrate::{
    backfill_last_modified, migrate_columns, plan_migrations, ColumnSet, MigrationStep,
};

#[test]
fn a_bare_base_table_plans_every_step_in_order() {
    let cols = ColumnSet { last_modified: false, synced: false, sync_id: false, user_id: false };
    let plan = plan_migrations(&cols);
    assert_eq!(
        plan,
        vec![
            MigrationStep::AddLastModified,
            MigrationStep::AddSynced,
            MigrationStep::AddSyncId,
            MigrationStep::AddUserId,
        ]
    );
}

#[test]
fn a_partially_migrated_table_plans_only_what_is_missing() {
    let cols = ColumnSet { last_modified: true, synced: true, sync_id: false, user_id: false };
    let plan = plan_migrations(&cols);
    assert_eq!(plan, vec![MigrationStep::AddSyncId, MigrationStep::AddUserId]);
}

#[test]
fn running_the_migration_twice_changes_nothing_the_second_time() {
    let mut cols = ColumnSet { last_modified: false, synced: true, sync_id: false, user_id: false };
    let first = migrate_columns(&mut cols);
    assert_eq!(first, vec![MigrationStep::AddLastModified, MigrationStep::AddSyncId,
        MigrationStep::AddUserId]);
    let after_first = cols;
    let second = migrate_columns(&mut cols);
    assert_eq!(second, Vec::new());
    assert_eq!(cols, after_first);
    assert_eq!(
        cols,
        ColumnSet { last_modified: true, synced: true, sync_id: true, user_id: true }
    );
}

#[test]
fn backfill_fills_gaps_and_keeps_existing_values() {
    let mut vals = vec![None, Some(5), None, Some(0)];
    backfill_last_modified(&mut vals, 9);
    assert_eq!(vals, vec![Some(9), Some(5), Some(9), Some(0)]);
}

#[test]
fn a_second_backfill_changes_no_row() {
    let mut vals = vec![None, Some(5)];
    backfill_last_modified(&mut vals, 9);
    let after_first = vals.clone();
    backfill_last_modified(&mut vals, 123);
    assert_eq!(vals, after_first);
}
