//! Startup schema evolution for the durable entry table.  The base table
//! carries the id, activity, elapsed, description, timestamp and tags
//! columns; later versions added `last_modified`, `synced`, `sync_id` and
//! `user_id`.  At startup the host probes which of those columns the table
//! already has, asks this module for the plan, and executes each step as
//! an `ALTER TABLE`; every step is additive and safe to plan on every
//! startup.  The `last_modified` step also backfills missing values with
//! "now", which `backfill_last_modified` models.

use vstd::prelude::*;

verus! {

/// Which of the columns added after the base schema the probed table
/// already has.
#[derive(Clone, Copy, Debug, PartialEq, Eq, Structural)]
pub struct ColumnSet {
    pub last_modified: bool,
    pub synced: bool,
    pub sync_id: bool,
    pub user_id: bool,
}

/// One additive migration step: add the named column with its safe
/// default.  Steps run in the fixed order this enum lists.
#[derive(Clone, Copy, Debug, PartialEq, Eq, Structural)]
pub enum MigrationStep {
    /// Add `last_modified` and backfill missing values with "now".
    AddLastModified,
    /// Add `synced`, defaulting to 0 (not yet acknowledged).
    AddSynced,
    /// Add `sync_id`, defaulting to null.
    AddSyncId,
    /// Add `user_id`, defaulting to null.
    AddUserId,
}

/// The steps a table with the given columns still needs, in version
/// order.  A column already present plans nothing — each step is
/// idempotent over startups.
pub open spec fn plan_spec(c: ColumnSet) -> Seq<MigrationStep> {
    (if !c.last_modified {
        seq![MigrationStep::AddLastModified]
    } else {
        Seq::<MigrationStep>::empty()
    }) + (if !c.synced {
        seq![MigrationStep::AddSynced]
    } else {
        Seq::<MigrationStep>::empty()
    }) + (if !c.sync_id {
        seq![MigrationStep::AddSyncId]
    } else {
        Seq::<MigrationStep>::empty()
    }) + (if !c.user_id {
        seq![MigrationStep::AddUserId]
    } else {
        Seq::<MigrationStep>::empty()
    })
}

/// The columns once one step has run.
pub open spec fn step_applied(c: ColumnSet, step: MigrationStep) -> ColumnSet {
    match step {
        MigrationStep::AddLastModified => ColumnSet { last_modified: true, ..c },
        MigrationStep::AddSynced => ColumnSet { synced: true, ..c },
        MigrationStep::AddSyncId => ColumnSet { sync_id: true, ..c },
        MigrationStep::AddUserId => ColumnSet { user_id: true, ..c },
    }
}

/// The columns once the whole migration has run: every column present,
/// whatever was there before.
pub open spec fn migrated(c: ColumnSet) -> ColumnSet {
    ColumnSet { last_modified: true, synced: true, sync_id: true, user_id: true }
}

/// The migration plan for a probed column set, for the host to execute
/// step by step.
pub fn plan_migrations(c: &ColumnSet) -> (r: Vec<MigrationStep>)
    ensures
        r@ == plan_spec(*c),
{
    let mut v: Vec<MigrationStep> = Vec::new();
    if !c.last_modified {
        v.push(MigrationStep::AddLastModified);
    }
    if !c.synced {
        v.push(MigrationStep::AddSynced);
    }
    if !c.sync_id {
        v.push(MigrationStep::AddSyncId);
    }
    if !c.user_id {
        v.push(MigrationStep::AddUserId);
    }
    proof {
        assert(v@ =~= plan_spec(*c));
    }
    v
}

/// Records one executed step in the probed column set.
pub fn apply_step(c: &mut ColumnSet, step: MigrationStep)
    ensures
        *final(c) == step_applied(*old(c), step),
{
    match step {
        MigrationStep::AddLastModified => {
            c.last_modified = true;
        },
        MigrationStep::AddSynced => {
            c.synced = true;
        },
        MigrationStep::AddSyncId => {
            c.sync_id = true;
        },
        MigrationStep::AddUserId => {
            c.user_id = true;
        },
    }
}

/// The whole startup migration over the probed column set: plans the
/// missing columns, records each step as applied, and returns the plan
/// for the host to execute against the durable table.
pub fn migrate_columns(c: &mut ColumnSet) -> (r: Vec<MigrationStep>)
    ensures
        r@ == plan_spec(*old(c)),
        *final(c) == migrated(*old(c)),
{
    let r = plan_migrations(c);
    if !c.last_modified {
        apply_step(c, MigrationStep::AddLastModified);
    }
    if !c.synced {
        apply_step(c, MigrationStep::AddSynced);
    }
    if !c.sync_id {
        apply_step(c, MigrationStep::AddSyncId);
    }
    if !c.user_id {
        apply_step(c, MigrationStep::AddUserId);
    }
    r
}

/// Running the startup migration twice gives the very schema the first
/// run left behind, and the second run plans no steps at all — so it can
/// touch neither the schema nor any existing row.
pub proof fn lemma_migration_idempotent(c: ColumnSet)
    ensures
        migrated(migrated(c)) == migrated(c),
        plan_spec(migrated(c)) == Seq::<MigrationStep>::empty(),
{
    assert(plan_spec(migrated(c)) =~= Seq::<MigrationStep>::empty());
}

/// The `last_modified` column of every row after the backfill: gaps
/// filled with `now`, present values kept verbatim.
pub open spec fn backfilled(s: Seq<Option<i64>>, now: i64) -> Seq<Option<i64>> {
    s.map_values(
        |o: Option<i64>|
            if o is None {
                Some(now)
            } else {
                o
            },
    )
}

/// The backfill of the `AddLastModified` step, over the column's values:
/// rows whose `last_modified` is missing get `now`, all others keep their
/// value.
pub fn backfill_last_modified(vals: &mut Vec<Option<i64>>, now: i64)
    ensures
        final(vals)@ == backfilled(old(vals)@, now),
{
    let mut i: usize = 0;
    while i < vals.len()
        invariant
            i <= vals.len(),
            vals@.len() == old(vals)@.len(),
            forall|k: int| 0 <= k < i ==> vals@[k] == backfilled(old(vals)@, now)[k],
            forall|k: int| i <= k < vals@.len() ==> vals@[k] == old(vals)@[k],
        decreases vals.len() - i,
    {
        if vals[i].is_none() {
            vals[i] = Some(now);
        }
        i += 1;
    }
    proof {
        assert(vals@ =~= backfilled(old(vals)@, now));
    }
}

/// A second backfill finds no gap left by the first, so it changes no
/// row's value, whatever instant it would fill with.
pub proof fn lemma_backfill_idempotent(s: Seq<Option<i64>>, now1: i64, now2: i64)
    ensures
        backfilled(backfilled(s, now1), now2) == backfilled(s, now1),
{
    assert(backfilled(backfilled(s, now1), now2) =~= backfilled(s, now1));
}

} // verus!
