//! Recurring maintenance tasks.

use vstd::prelude::*;
use vstd::string::StringSliceAdditionalSpecFns;

use crate::arith::capped64;
use crate::call::{Call, CallView};
use crate::errors::{Abort, LifecycleError};
use crate::events::Notice;
use crate::lists::{copy_list, copy_slice};
use crate::names::{Address, Symbol};
use crate::ownership::{append_credit, append_record, with_entry};
use crate::scoring::{base_increment, get_task_weight};
use crate::state::{either, error, outcome, Lifecycle, State};
use crate::types::{AssetView, MaintenanceRecord, Priority, RecordView, RecurringTask};

verus! {

/// The place of the first task of that number.
pub open spec fn task_place(tasks: Seq<RecurringTask>, task_id: u64) -> Option<int>
    decreases tasks.len(),
{
    if tasks.len() == 0 {
        None
    } else {
        match task_place(tasks.drop_last(), task_id) {
            Some(i) => Some(i),
            None => if tasks.last().task_id == task_id {
                Some(tasks.len() - 1)
            } else {
                None
            },
        }
    }
}

/// Where the start of a list has a task of that number, the list has it at the same place.
proof fn lemma_task_place(tasks: Seq<RecurringTask>, task_id: u64, n: int)
    requires
        0 <= n <= tasks.len(),
        task_place(tasks.take(n), task_id) is Some,
    ensures
        task_place(tasks, task_id) == task_place(tasks.take(n), task_id),
    decreases tasks.len() - n,
{
    if n < tasks.len() {
        assert(tasks.take(n + 1).drop_last() =~= tasks.take(n));
        lemma_task_place(tasks, task_id, n + 1);
    } else {
        assert(tasks.take(n) =~= tasks);
    }
}

/// Where a list has no task of that number, no task of it has that number.
proof fn lemma_no_task(tasks: Seq<RecurringTask>, task_id: u64)
    requires
        task_place(tasks, task_id) is None,
    ensures
        forall|i: int| 0 <= i < tasks.len() ==> (#[trigger] tasks[i]).task_id != task_id,
    decreases tasks.len(),
{
    if tasks.len() > 0 {
        lemma_no_task(tasks.drop_last(), task_id);
        assert forall|i: int| 0 <= i < tasks.len() implies (#[trigger] tasks[i]).task_id
            != task_id by {
            if i < tasks.len() - 1 {
                assert(tasks.drop_last()[i].task_id != task_id);
            }
        }
    }
}

/// The place of the first task of that number.
fn find_task(tasks: &Vec<RecurringTask>, task_id: u64) -> (r: Option<usize>)
    ensures
        match r {
            Some(i) => i < tasks@.len() && task_place(tasks@, task_id) == Some(i as int),
            None => task_place(tasks@, task_id) is None,
        },
{
    let mut i: usize = 0;
    while i < tasks.len()
        invariant
            i <= tasks@.len(),
            task_place(tasks@.take(i as int), task_id) is None,
        decreases tasks@.len() - i,
    {
        assert(tasks@.take(i + 1).drop_last() =~= tasks@.take(i as int));
        if tasks[i].task_id == task_id {
            proof {
                lemma_task_place(tasks@, task_id, i + 1);
            }
            return Some(i);
        }
        i += 1;
    }
    assert(tasks@.take(tasks@.len() as int) =~= tasks@);
    None
}

/// What scheduling a recurring task leads to.
pub open spec fn schedule_recurring_task_result(
    s: State,
    call: CallView,
    owner: Address,
    asset_id: u64,
    task_id: u64,
    task_type: Symbol,
    interval_type: Symbol,
    interval_value: u64,
) -> Result<State, Abort> {
    let a = s.asset(asset_id);
    match either(
        s.entry_check(call, owner),
        either(
            if interval_value == 0 {
                error(LifecycleError::InvalidRecurringSchedule)
            } else {
                None
            },
            s.owner_check(call, asset_id, owner),
        ),
    ) {
        Some(e) => Err(e),
        None => if task_place(a.tasks, task_id) is Some {
            Err(Abort::Error(LifecycleError::DuplicateRecurringTask))
        } else {
            Ok(
                s.with_asset(
                    asset_id,
                    AssetView {
                        tasks: a.tasks.push(
                            RecurringTask {
                                task_id,
                                task_type,
                                interval_type,
                                interval_value,
                                next_due: capped64(call.now + interval_value),
                                is_active: true,
                            },
                        ),
                        ..a
                    },
                ).notify(
                    Notice::TaskScheduled { asset_id, task_id, task_type, interval_value },
                ),
            )
        },
    }
}

/// The record that a recurring task leaves.
pub open spec fn recurring_record(
    asset_id: u64,
    task_type: Symbol,
    engineer: Address,
    now: u64,
) -> RecordView {
    RecordView {
        asset_id,
        task_type,
        priority: Priority::Low,
        notes: "Auto-created from recurring schedule".spec_bytes(),
        engineer,
        timestamp: now,
        cost: None,
    }
}

/// What carrying a recurring task out leads to: a record, which raises no score but counts as
/// recent maintenance, and the next time the task is due.
pub open spec fn auto_create_recurring_task_result(
    s: State,
    call: CallView,
    asset_id: u64,
    task_id: u64,
    engineer: Address,
) -> Result<State, Abort> {
    let a = s.asset(asset_id);
    match s.entry_check(call, engineer) {
        Some(e) => Err(e),
        None => match task_place(a.tasks, task_id) {
            None => Err(Abort::Error(LifecycleError::RecurringTaskNotFound)),
            Some(i) => {
                let task = a.tasks[i];
                if !task.is_active {
                    Err(Abort::Error(LifecycleError::RecurringTaskInactive))
                } else if s.config is None {
                    Err(Abort::Error(LifecycleError::NotInitialized))
                } else {
                    Ok(
                        s.with_asset(
                            asset_id,
                            AssetView {
                                history: with_entry(
                                    a.history,
                                    recurring_record(asset_id, task.task_type, engineer, call.now),
                                    s.config->0.max_history,
                                ),
                                credits: with_entry(
                                    a.credits,
                                    base_increment(s.config->0, task.task_type),
                                    s.config->0.max_history,
                                ),
                                tasks: a.tasks.update(
                                    i,
                                    RecurringTask {
                                        next_due: capped64(call.now + task.interval_value),
                                        ..task
                                    },
                                ),
                                last_update: Some(call.now),
                                last_service: Some(call.now),
                                ..a
                            },
                        ).notify(
                            Notice::TaskExecuted {
                                asset_id,
                                task_id,
                                task_type: task.task_type,
                                timestamp: call.now,
                            },
                        ),
                    )
                }
            },
        },
    }
}

impl Lifecycle {
    /// Schedules a recurring maintenance task for the asset.
    pub fn schedule_recurring_task(
        &mut self,
        call: &Call,
        owner: Address,
        asset_id: u64,
        task_id: u64,
        task_type: Symbol,
        interval_type: Symbol,
        interval_value: u64,
    ) -> (r: Result<(), Abort>)
        requires
            old(self)@.wf(),
        ensures
            outcome(
                r,
                old(self)@,
                final(self)@,
                schedule_recurring_task_result(
                    old(self)@,
                    call@,
                    owner,
                    asset_id,
                    task_id,
                    task_type,
                    interval_type,
                    interval_value,
                ),
            ),
            final(self)@.wf(),
    {
        if let Some(e) = self.require_entry(call, owner) {
            return Err(e);
        }
        if interval_value == 0 {
            return Err(Abort::Error(LifecycleError::InvalidRecurringSchedule));
        }
        if let Some(e) = self.require_owner(call, asset_id, owner) {
            return Err(e);
        }
        let mut asset = self.load_asset(asset_id);
        if find_task(&asset.tasks, task_id).is_some() {
            return Err(Abort::Error(LifecycleError::DuplicateRecurringTask));
        }
        proof {
            lemma_no_task(asset.tasks@, task_id);
        }
        asset.tasks.push(
            RecurringTask {
                task_id,
                task_type,
                interval_type,
                interval_value,
                next_due: call.now.saturating_add(interval_value),
                is_active: true,
            },
        );
        self.store_asset(asset_id, asset);
        self.notify(Notice::TaskScheduled { asset_id, task_id, task_type, interval_value });
        Ok(())
    }

    /// Carries a recurring task of the asset out: leaves a record, and sets when it is due next.
    pub fn auto_create_recurring_task(
        &mut self,
        call: &Call,
        asset_id: u64,
        task_id: u64,
        engineer: Address,
    ) -> (r: Result<(), Abort>)
        requires
            old(self)@.wf(),
        ensures
            outcome(
                r,
                old(self)@,
                final(self)@,
                auto_create_recurring_task_result(
                    old(self)@,
                    call@,
                    asset_id,
                    task_id,
                    engineer,
                ),
            ),
            final(self)@.wf(),
    {
        if let Some(e) = self.require_entry(call, engineer) {
            return Err(e);
        }
        let mut asset = self.load_asset(asset_id);
        let i: usize = match find_task(&asset.tasks, task_id) {
            Some(i) => i,
            None => return Err(Abort::Error(LifecycleError::RecurringTaskNotFound)),
        };
        let task: RecurringTask = asset.tasks[i];
        if !task.is_active {
            return Err(Abort::Error(LifecycleError::RecurringTaskInactive));
        }
        let config = match self.load_config() {
            Some(c) => c,
            None => return Err(Abort::Error(LifecycleError::NotInitialized)),
        };
        let max: u32 = config.max_history;
        let now: u64 = call.now;
        let task_type: Symbol = task.task_type;
        let record = MaintenanceRecord {
            asset_id,
            task_type,
            priority: Priority::Low,
            notes: copy_slice("Auto-created from recurring schedule".as_bytes()),
            engineer,
            timestamp: now,
            cost: None,
        };
        append_record(&mut asset.history, record, max);
        append_credit(&mut asset.credits, get_task_weight(&config, task_type), max);
        let next = RecurringTask {
            task_id: task.task_id,
            task_type,
            interval_type: task.interval_type,
            interval_value: task.interval_value,
            next_due: now.saturating_add(task.interval_value),
            is_active: task.is_active,
        };
        asset.tasks.set(i, next);
        asset.last_update = Some(now);
        asset.last_service = Some(now);
        self.store_asset(asset_id, asset);
        self.notify(Notice::TaskExecuted { asset_id, task_id, task_type, timestamp: now });
        Ok(())
    }

    /// The recurring tasks of the asset.
    pub fn get_recurring_tasks(&self, asset_id: u64) -> (r: Vec<RecurringTask>)
        ensures
            r@ == self@.asset(asset_id).tasks,
    {
        copy_list(&self.load_asset(asset_id).tasks)
    }
}

} // verus!
