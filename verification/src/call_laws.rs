//! Laws of calls: every function that changes the state has the effect that is owed, or none.

use vstd::prelude::*;

use crate::call::Call;
use crate::errors::Abort;
use crate::governance::{
    accept_admin_result, execute_upgrade_result, pause_result, propose_admin_result,
    propose_config_update_result, propose_pause_result, propose_unpause_result,
    propose_upgrade_result, set_admin_quorum_result, unpause_result,
};
use crate::host::{host_bytes, host_string_bytes};
use crate::maintenance::{batch_submitted, costs_view, submitted};
use crate::names::{Address, Symbol};
use crate::ownership::{
    authorize_engineer_result, clear_engineer_authorizations_result, decommission_notify_result,
    execute_revoke_engineer_auth_result, propose_revoke_engineer_auth_result,
    record_transfer_result, transfer_notify_result,
};
use crate::recurring::{auto_create_recurring_task_result, schedule_recurring_task_result};
use crate::scores::{force_decay_result, reset_score_result};
use crate::settings::{
    initialize_result, set_eligibility_threshold_result, set_max_notes_length_result,
    set_max_submissions_per_hour_result, set_task_weight_result, update_asset_registry_result,
    update_decay_config_result, update_eligibility_threshold_result,
    update_engineer_registry_result, update_max_history_result, update_max_notes_length_result,
    update_score_increment_result, update_scoring_weights_result,
};
use crate::state::{Lifecycle, State};
use crate::types::{
    batch, BatchRecord, BatchView, Priority, RecordView, TimelockProposal, WasmHash,
};
use crate::upkeep::{
    mark_duplicate_result, prune_asset_history_result, purge_asset_data_result,
    register_standard_result,
};

verus! {

/// What the administrator's functions return and leave behind: the effect that is owed, or the
/// reason and no effect.
pub proof fn governing_has_its_effect(
    l: &mut Lifecycle,
    call: &Call,
    admin: Address,
    new_admin: Address,
    op: Symbol,
    hash: WasmHash,
    r: Result<(), Abort>,
)
    requires
        old(l)@.wf(),
    ensures
        call_ensures(Lifecycle::pause, (l, call, admin), r) ==> {
            let owed = pause_result(old(l)@, call@, admin);
            &&& r is Ok ==> owed == Ok::<State, Abort>(final(l)@)
            &&& r is Err ==> owed == Err::<State, Abort>(r->Err_0) && final(l)@ == old(l)@
        },
        call_ensures(Lifecycle::unpause, (l, call, admin), r) ==> {
            let owed = unpause_result(old(l)@, call@, admin);
            &&& r is Ok ==> owed == Ok::<State, Abort>(final(l)@)
            &&& r is Err ==> owed == Err::<State, Abort>(r->Err_0) && final(l)@ == old(l)@
        },
        call_ensures(Lifecycle::propose_pause, (l, call, admin), r) ==> {
            let owed = propose_pause_result(old(l)@, call@, admin);
            &&& r is Ok ==> owed == Ok::<State, Abort>(final(l)@)
            &&& r is Err ==> owed == Err::<State, Abort>(r->Err_0) && final(l)@ == old(l)@
        },
        call_ensures(Lifecycle::propose_unpause, (l, call, admin), r) ==> {
            let owed = propose_unpause_result(old(l)@, call@, admin);
            &&& r is Ok ==> owed == Ok::<State, Abort>(final(l)@)
            &&& r is Err ==> owed == Err::<State, Abort>(r->Err_0) && final(l)@ == old(l)@
        },
        call_ensures(Lifecycle::propose_admin, (l, call, admin, new_admin), r) ==> {
            let owed = propose_admin_result(old(l)@, call@, admin, new_admin);
            &&& r is Ok ==> owed == Ok::<State, Abort>(final(l)@)
            &&& r is Err ==> owed == Err::<State, Abort>(r->Err_0) && final(l)@ == old(l)@
        },
        call_ensures(Lifecycle::propose_config_update, (l, call, admin, op), r) ==> {
            let owed = propose_config_update_result(old(l)@, call@, admin, op);
            &&& r is Ok ==> owed == Ok::<State, Abort>(final(l)@)
            &&& r is Err ==> owed == Err::<State, Abort>(r->Err_0) && final(l)@ == old(l)@
        },
        call_ensures(Lifecycle::propose_upgrade, (l, call, admin, hash), r) ==> {
            let owed = propose_upgrade_result(old(l)@, call@, admin, hash);
            &&& r is Ok ==> owed == Ok::<State, Abort>(final(l)@)
            &&& r is Err ==> owed == Err::<State, Abort>(r->Err_0) && final(l)@ == old(l)@
        },
        call_ensures(Lifecycle::accept_admin, (l, call), r) ==> {
            let owed = accept_admin_result(old(l)@, call@);
            &&& r is Ok ==> owed == Ok::<State, Abort>(final(l)@)
            &&& r is Err ==> owed == Err::<State, Abort>(r->Err_0) && final(l)@ == old(l)@
        },
{
}

/// What the functions that change a setting return and leave behind.
pub proof fn settings_have_their_effect(
    l: &mut Lifecycle,
    call: &Call,
    admin: Address,
    x: u32,
    y: u64,
    registry: Address,
    task_type: Symbol,
    r: Result<(), Abort>,
)
    requires
        old(l)@.wf(),
    ensures
        call_ensures(Lifecycle::update_score_increment, (l, call, admin, x), r) ==> {
            let owed = update_score_increment_result(old(l)@, call@, admin, x);
            &&& r is Ok ==> owed == Ok::<State, Abort>(final(l)@)
            &&& r is Err ==> owed == Err::<State, Abort>(r->Err_0) && final(l)@ == old(l)@
        },
        call_ensures(Lifecycle::update_decay_config, (l, call, admin, x, y), r) ==> {
            let owed = update_decay_config_result(old(l)@, call@, admin, x, y);
            &&& r is Ok ==> owed == Ok::<State, Abort>(final(l)@)
            &&& r is Err ==> owed == Err::<State, Abort>(r->Err_0) && final(l)@ == old(l)@
        },
        call_ensures(Lifecycle::update_eligibility_threshold, (l, call, admin, x), r) ==> {
            let owed = update_eligibility_threshold_result(old(l)@, call@, admin, x);
            &&& r is Ok ==> owed == Ok::<State, Abort>(final(l)@)
            &&& r is Err ==> owed == Err::<State, Abort>(r->Err_0) && final(l)@ == old(l)@
        },
        call_ensures(Lifecycle::update_max_history, (l, call, admin, x), r) ==> {
            let owed = update_max_history_result(old(l)@, call@, admin, x);
            &&& r is Ok ==> owed == Ok::<State, Abort>(final(l)@)
            &&& r is Err ==> owed == Err::<State, Abort>(r->Err_0) && final(l)@ == old(l)@
        },
        call_ensures(Lifecycle::update_max_notes_length, (l, call, admin, x), r) ==> {
            let owed = update_max_notes_length_result(old(l)@, call@, admin, x);
            &&& r is Ok ==> owed == Ok::<State, Abort>(final(l)@)
            &&& r is Err ==> owed == Err::<State, Abort>(r->Err_0) && final(l)@ == old(l)@
        },
        call_ensures(Lifecycle::set_max_notes_length, (l, call, admin, x), r) ==> {
            let owed = set_max_notes_length_result(old(l)@, call@, admin, x);
            &&& r is Ok ==> owed == Ok::<State, Abort>(final(l)@)
            &&& r is Err ==> owed == Err::<State, Abort>(r->Err_0) && final(l)@ == old(l)@
        },
        call_ensures(Lifecycle::set_eligibility_threshold, (l, call, admin, x), r) ==> {
            let owed = set_eligibility_threshold_result(old(l)@, call@, admin, x);
            &&& r is Ok ==> owed == Ok::<State, Abort>(final(l)@)
            &&& r is Err ==> owed == Err::<State, Abort>(r->Err_0) && final(l)@ == old(l)@
        },
        call_ensures(Lifecycle::set_max_submissions_per_hour, (l, call, admin, x), r) ==> {
            let owed = set_max_submissions_per_hour_result(old(l)@, call@, admin, x);
            &&& r is Ok ==> owed == Ok::<State, Abort>(final(l)@)
            &&& r is Err ==> owed == Err::<State, Abort>(r->Err_0) && final(l)@ == old(l)@
        },
        call_ensures(Lifecycle::update_asset_registry, (l, call, admin, registry), r) ==> {
            let owed = update_asset_registry_result(old(l)@, call@, admin, registry);
            &&& r is Ok ==> owed == Ok::<State, Abort>(final(l)@)
            &&& r is Err ==> owed == Err::<State, Abort>(r->Err_0) && final(l)@ == old(l)@
        },
        call_ensures(Lifecycle::update_engineer_registry, (l, call, admin, registry), r) ==> {
            let owed = update_engineer_registry_result(old(l)@, call@, admin, registry);
            &&& r is Ok ==> owed == Ok::<State, Abort>(final(l)@)
            &&& r is Err ==> owed == Err::<State, Abort>(r->Err_0) && final(l)@ == old(l)@
        },
        call_ensures(Lifecycle::set_task_weight, (l, call, admin, task_type, x), r) ==> {
            let owed = set_task_weight_result(old(l)@, call@, admin, task_type, x);
            &&& r is Ok ==> owed == Ok::<State, Abort>(final(l)@)
            &&& r is Err ==> owed == Err::<State, Abort>(r->Err_0) && final(l)@ == old(l)@
        },
{
}

/// A proposal is executed only where it stands under its own name, is not yet executed and has
/// waited 172800 seconds; it is then marked, and its operation has its effect. A refused execution
/// leaves the proposal as it was.
pub proof fn executions_have_their_effect(
    l: &mut Lifecycle,
    call: &Call,
    admin: Address,
    x: u32,
    y: u64,
    registry: Address,
    r: Result<(), Abort>,
)
    requires
        old(l)@.wf(),
    ensures
        call_ensures(Lifecycle::execute_pause, (l, call, admin), r) ==> {
            let s = old(l)@;
            let name = Symbol { head: 0x50_4155_5345, tail: 0 };
            let p = s.timelocks[name];
            let done = TimelockProposal { proposed_at: p.proposed_at, executed: true };
            let t = State { timelocks: s.timelocks.insert(name, done), ..s };
            let owed = pause_result(t, call@, admin);
            let ready = s.timelocks.contains_key(name) && !p.executed && call@.now
                >= p.proposed_at + 172_800;
            &&& r is Ok <==> ready && owed is Ok
            &&& r is Ok ==> owed == Ok::<State, Abort>(final(l)@)
            &&& r is Err && ready ==> owed == Err::<State, Abort>(r->Err_0)
            &&& r is Err ==> final(l)@ == old(l)@
        },
        call_ensures(Lifecycle::execute_unpause, (l, call, admin), r) ==> {
            let s = old(l)@;
            let name = Symbol { head: 0x55_4e50_4155_5345, tail: 0 };
            let p = s.timelocks[name];
            let done = TimelockProposal { proposed_at: p.proposed_at, executed: true };
            let t = State { timelocks: s.timelocks.insert(name, done), ..s };
            let owed = unpause_result(t, call@, admin);
            let ready = s.timelocks.contains_key(name) && !p.executed && call@.now
                >= p.proposed_at + 172_800;
            &&& r is Ok <==> ready && owed is Ok
            &&& r is Ok ==> owed == Ok::<State, Abort>(final(l)@)
            &&& r is Err && ready ==> owed == Err::<State, Abort>(r->Err_0)
            &&& r is Err ==> final(l)@ == old(l)@
        },
        call_ensures(Lifecycle::execute_update_score_increment, (l, call, admin, x), r) ==> {
            let s = old(l)@;
            let name = Symbol { head: 0x5343_5f49_4e43, tail: 0 };
            let p = s.timelocks[name];
            let done = TimelockProposal { proposed_at: p.proposed_at, executed: true };
            let t = State { timelocks: s.timelocks.insert(name, done), ..s };
            let owed = update_score_increment_result(t, call@, admin, x);
            let ready = s.timelocks.contains_key(name) && !p.executed && call@.now
                >= p.proposed_at + 172_800;
            &&& r is Ok <==> ready && owed is Ok
            &&& r is Ok ==> owed == Ok::<State, Abort>(final(l)@)
            &&& r is Err && ready ==> owed == Err::<State, Abort>(r->Err_0)
            &&& r is Err ==> final(l)@ == old(l)@
        },
        call_ensures(Lifecycle::execute_update_decay_config, (l, call, admin, x, y), r) ==> {
            let s = old(l)@;
            let name = Symbol { head: 0x44_4543_5f43_4647, tail: 0 };
            let p = s.timelocks[name];
            let done = TimelockProposal { proposed_at: p.proposed_at, executed: true };
            let t = State { timelocks: s.timelocks.insert(name, done), ..s };
            let owed = update_decay_config_result(t, call@, admin, x, y);
            let ready = s.timelocks.contains_key(name) && !p.executed && call@.now
                >= p.proposed_at + 172_800;
            &&& r is Ok <==> ready && owed is Ok
            &&& r is Ok ==> owed == Ok::<State, Abort>(final(l)@)
            &&& r is Err && ready ==> owed == Err::<State, Abort>(r->Err_0)
            &&& r is Err ==> final(l)@ == old(l)@
        },
        call_ensures(Lifecycle::execute_update_eligibility, (l, call, admin, x), r) ==> {
            let s = old(l)@;
            let name = Symbol { head: 0x454c_4947, tail: 0 };
            let p = s.timelocks[name];
            let done = TimelockProposal { proposed_at: p.proposed_at, executed: true };
            let t = State { timelocks: s.timelocks.insert(name, done), ..s };
            let owed = update_eligibility_threshold_result(t, call@, admin, x);
            let ready = s.timelocks.contains_key(name) && !p.executed && call@.now
                >= p.proposed_at + 172_800;
            &&& r is Ok <==> ready && owed is Ok
            &&& r is Ok ==> owed == Ok::<State, Abort>(final(l)@)
            &&& r is Err && ready ==> owed == Err::<State, Abort>(r->Err_0)
            &&& r is Err ==> final(l)@ == old(l)@
        },
        call_ensures(Lifecycle::execute_update_max_history, (l, call, admin, x), r) ==> {
            let s = old(l)@;
            let name = Symbol { head: 0x4d41_585f_4849_5354, tail: 0 };
            let p = s.timelocks[name];
            let done = TimelockProposal { proposed_at: p.proposed_at, executed: true };
            let t = State { timelocks: s.timelocks.insert(name, done), ..s };
            let owed = update_max_history_result(t, call@, admin, x);
            let ready = s.timelocks.contains_key(name) && !p.executed && call@.now
                >= p.proposed_at + 172_800;
            &&& r is Ok <==> ready && owed is Ok
            &&& r is Ok ==> owed == Ok::<State, Abort>(final(l)@)
            &&& r is Err && ready ==> owed == Err::<State, Abort>(r->Err_0)
            &&& r is Err ==> final(l)@ == old(l)@
        },
        call_ensures(Lifecycle::execute_update_max_notes_length, (l, call, admin, x), r) ==> {
            let s = old(l)@;
            let name = Symbol { head: 0x4d41_585f_4e4f_5445, tail: 0 };
            let p = s.timelocks[name];
            let done = TimelockProposal { proposed_at: p.proposed_at, executed: true };
            let t = State { timelocks: s.timelocks.insert(name, done), ..s };
            let owed = update_max_notes_length_result(t, call@, admin, x);
            let ready = s.timelocks.contains_key(name) && !p.executed && call@.now
                >= p.proposed_at + 172_800;
            &&& r is Ok <==> ready && owed is Ok
            &&& r is Ok ==> owed == Ok::<State, Abort>(final(l)@)
            &&& r is Err && ready ==> owed == Err::<State, Abort>(r->Err_0)
            &&& r is Err ==> final(l)@ == old(l)@
        },
        call_ensures(Lifecycle::execute_update_asset_registry, (l, call, admin, registry), r) ==> {
            let s = old(l)@;
            let name = Symbol { head: 0x41_5354_5f52_4547, tail: 0 };
            let p = s.timelocks[name];
            let done = TimelockProposal { proposed_at: p.proposed_at, executed: true };
            let t = State { timelocks: s.timelocks.insert(name, done), ..s };
            let owed = update_asset_registry_result(t, call@, admin, registry);
            let ready = s.timelocks.contains_key(name) && !p.executed && call@.now
                >= p.proposed_at + 172_800;
            &&& r is Ok <==> ready && owed is Ok
            &&& r is Ok ==> owed == Ok::<State, Abort>(final(l)@)
            &&& r is Err && ready ==> owed == Err::<State, Abort>(r->Err_0)
            &&& r is Err ==> final(l)@ == old(l)@
        },
        call_ensures(
            Lifecycle::execute_update_engineer_registry,
            (l, call, admin, registry),
            r,
        ) ==> {
            let s = old(l)@;
            let name = Symbol { head: 0x45_4e47_5f52_4547, tail: 0 };
            let p = s.timelocks[name];
            let done = TimelockProposal { proposed_at: p.proposed_at, executed: true };
            let t = State { timelocks: s.timelocks.insert(name, done), ..s };
            let owed = update_engineer_registry_result(t, call@, admin, registry);
            let ready = s.timelocks.contains_key(name) && !p.executed && call@.now
                >= p.proposed_at + 172_800;
            &&& r is Ok <==> ready && owed is Ok
            &&& r is Ok ==> owed == Ok::<State, Abort>(final(l)@)
            &&& r is Err && ready ==> owed == Err::<State, Abort>(r->Err_0)
            &&& r is Err ==> final(l)@ == old(l)@
        },
{
}

/// What the functions of owners and of the asset registry return and leave behind.
pub proof fn ownership_has_its_effect(
    l: &mut Lifecycle,
    call: &Call,
    owner: Address,
    asset_id: u64,
    engineer: Address,
    r: Result<(), Abort>,
)
    requires
        old(l)@.wf(),
    ensures
        call_ensures(Lifecycle::authorize_engineer, (l, call, owner, asset_id, engineer), r) ==> {
            let owed = authorize_engineer_result(old(l)@, call@, owner, asset_id, engineer);
            &&& r is Ok ==> owed == Ok::<State, Abort>(final(l)@)
            &&& r is Err ==> owed == Err::<State, Abort>(r->Err_0) && final(l)@ == old(l)@
        },
        call_ensures(
            Lifecycle::propose_revoke_engineer_auth,
            (l, call, owner, asset_id, engineer),
            r,
        ) ==> {
            let owed = propose_revoke_engineer_auth_result(
                old(l)@,
                call@,
                owner,
                asset_id,
                engineer,
            );
            &&& r is Ok ==> owed == Ok::<State, Abort>(final(l)@)
            &&& r is Err ==> owed == Err::<State, Abort>(r->Err_0) && final(l)@ == old(l)@
        },
        call_ensures(
            Lifecycle::execute_revoke_engineer_auth,
            (l, call, owner, asset_id, engineer),
            r,
        ) ==> {
            let owed = execute_revoke_engineer_auth_result(
                old(l)@,
                call@,
                owner,
                asset_id,
                engineer,
            );
            &&& r is Ok ==> owed == Ok::<State, Abort>(final(l)@)
            &&& r is Err ==> owed == Err::<State, Abort>(r->Err_0) && final(l)@ == old(l)@
        },
        call_ensures(Lifecycle::clear_engineer_authorizations, (l, call, owner, asset_id), r) ==> {
            let owed = clear_engineer_authorizations_result(old(l)@, call@, owner, asset_id);
            &&& r is Ok ==> owed == Ok::<State, Abort>(final(l)@)
            &&& r is Err ==> owed == Err::<State, Abort>(r->Err_0) && final(l)@ == old(l)@
        },
        call_ensures(Lifecycle::record_transfer, (l, call, asset_id, engineer, owner), r) ==> {
            let owed = record_transfer_result(old(l)@, call@, asset_id, engineer, owner);
            &&& r is Ok ==> owed == Ok::<State, Abort>(final(l)@)
            &&& r is Err ==> owed == Err::<State, Abort>(r->Err_0) && final(l)@ == old(l)@
        },
        call_ensures(Lifecycle::transfer_notify, (l, call, asset_id, owner), r) ==> {
            let owed = transfer_notify_result(old(l)@, call@, asset_id, owner);
            &&& r is Ok ==> owed == Ok::<State, Abort>(final(l)@)
            &&& r is Err ==> owed == Err::<State, Abort>(r->Err_0) && final(l)@ == old(l)@
        },
        call_ensures(Lifecycle::decommission_notify, (l, call, asset_id), r) ==> {
            let owed = decommission_notify_result(old(l)@, call@, asset_id);
            &&& r is Ok ==> owed == Ok::<State, Abort>(final(l)@)
            &&& r is Err ==> owed == Err::<State, Abort>(r->Err_0) && final(l)@ == old(l)@
        },
{
}

/// What the functions that keep the records in order return and leave behind.
pub proof fn upkeep_has_its_effect(
    l: &mut Lifecycle,
    call: &Call,
    admin: Address,
    asset_id: u64,
    primary_id: u64,
    duplicate_id: u64,
    r: Result<(), Abort>,
)
    requires
        old(l)@.wf(),
    ensures
        call_ensures(Lifecycle::force_decay, (l, call, admin, asset_id), r) ==> {
            let owed = force_decay_result(old(l)@, call@, admin, asset_id);
            &&& r is Ok ==> owed == Ok::<State, Abort>(final(l)@)
            &&& r is Err ==> owed == Err::<State, Abort>(r->Err_0) && final(l)@ == old(l)@
        },
        call_ensures(Lifecycle::reset_score, (l, call, admin, asset_id), r) ==> {
            let owed = reset_score_result(old(l)@, call@, admin, asset_id);
            &&& r is Ok ==> owed == Ok::<State, Abort>(final(l)@)
            &&& r is Err ==> owed == Err::<State, Abort>(r->Err_0) && final(l)@ == old(l)@
        },
        call_ensures(Lifecycle::prune_asset_history, (l, call, admin, asset_id), r) ==> {
            let owed = prune_asset_history_result(old(l)@, call@, admin, asset_id);
            &&& r is Ok ==> owed == Ok::<State, Abort>(final(l)@)
            &&& r is Err ==> owed == Err::<State, Abort>(r->Err_0) && final(l)@ == old(l)@
        },
        call_ensures(Lifecycle::purge_asset_data, (l, call, admin, asset_id), r) ==> {
            let owed = purge_asset_data_result(old(l)@, call@, admin, asset_id);
            &&& r is Ok ==> owed == Ok::<State, Abort>(final(l)@)
            &&& r is Err ==> owed == Err::<State, Abort>(r->Err_0) && final(l)@ == old(l)@
        },
        call_ensures(
            Lifecycle::mark_maintenance_as_duplicate,
            (l, call, admin, asset_id, primary_id, duplicate_id),
            r,
        ) ==> {
            let owed = mark_duplicate_result(
                old(l)@,
                call@,
                admin,
                asset_id,
                primary_id,
                duplicate_id,
            );
            &&& r is Ok ==> owed == Ok::<State, Abort>(final(l)@)
            &&& r is Err ==> owed == Err::<State, Abort>(r->Err_0) && final(l)@ == old(l)@
        },
{
}

/// What the functions for recurring tasks return and leave behind.
pub proof fn tasks_have_their_effect(
    l: &mut Lifecycle,
    call: &Call,
    who: Address,
    asset_id: u64,
    task_id: u64,
    task_type: Symbol,
    interval_type: Symbol,
    interval_value: u64,
    r: Result<(), Abort>,
)
    requires
        old(l)@.wf(),
    ensures
        call_ensures(
            Lifecycle::schedule_recurring_task,
            (l, call, who, asset_id, task_id, task_type, interval_type, interval_value),
            r,
        ) ==> {
            let owed = schedule_recurring_task_result(
                old(l)@,
                call@,
                who,
                asset_id,
                task_id,
                task_type,
                interval_type,
                interval_value,
            );
            &&& r is Ok ==> owed == Ok::<State, Abort>(final(l)@)
            &&& r is Err ==> owed == Err::<State, Abort>(r->Err_0) && final(l)@ == old(l)@
        },
        call_ensures(
            Lifecycle::auto_create_recurring_task,
            (l, call, asset_id, task_id, who),
            r,
        ) ==> {
            let owed = auto_create_recurring_task_result(old(l)@, call@, asset_id, task_id, who);
            &&& r is Ok ==> owed == Ok::<State, Abort>(final(l)@)
            &&& r is Err ==> owed == Err::<State, Abort>(r->Err_0) && final(l)@ == old(l)@
        },
{
}

/// An upgrade that is carried out gives back the code that was proposed.
pub proof fn upgrades_give_back_what_was_proposed(
    l: &mut Lifecycle,
    call: &Call,
    admin: Address,
    r: Result<WasmHash, Abort>,
)
    requires
        old(l)@.wf(),
        call_ensures(Lifecycle::execute_upgrade, (l, call, admin), r),
    ensures
        r is Ok ==> old(l)@.pending_upgrade == Some(r->Ok_0) && execute_upgrade_result(
            old(l)@,
            call@,
            admin,
        ) == Ok::<State, Abort>(final(l)@),
        r is Err ==> final(l)@ == old(l)@ && execute_upgrade_result(old(l)@, call@, admin)
            == Err::<State, Abort>(r->Err_0),
{
}

/// What initializing, setting the quorum, setting frequency weights and registering a standard
/// return and leave behind.
pub proof fn foundations_have_their_effect(
    l: &mut Lifecycle,
    call: &Call,
    deployer: Address,
    admin: Address,
    first: Address,
    second: Address,
    admins: Vec<Address>,
    x: u32,
    asset_type: Symbol,
    bytes: &soroban_sdk::Bytes,
    r: Result<(), Abort>,
)
    requires
        old(l)@.wf(),
    ensures
        call_ensures(Lifecycle::initialize, (l, call, deployer, first, second, admin, x), r) ==> {
            let owed = initialize_result(old(l)@, call@, deployer, first, second, admin, x);
            &&& r is Ok ==> owed == Ok::<State, Abort>(final(l)@)
            &&& r is Err ==> owed == Err::<State, Abort>(r->Err_0) && final(l)@ == old(l)@
        },
        call_ensures(Lifecycle::set_admin_quorum, (l, call, admin, admins, x), r) ==> {
            let owed = set_admin_quorum_result(old(l)@, call@, admin, admins@, x);
            &&& r is Ok ==> owed == Ok::<State, Abort>(final(l)@)
            &&& r is Err ==> owed == Err::<State, Abort>(r->Err_0) && final(l)@ == old(l)@
        },
        call_ensures(Lifecycle::update_scoring_weights, (l, call, admin, asset_type, bytes), r)
            ==> {
            let text = host_bytes(*bytes);
            let owed = update_scoring_weights_result(old(l)@, call@, admin, asset_type, text);
            &&& r is Ok ==> owed == Ok::<State, Abort>(final(l)@)
            &&& r is Err ==> owed == Err::<State, Abort>(r->Err_0) && final(l)@ == old(l)@
        },
        call_ensures(Lifecycle::register_standard, (l, call, admin, asset_type, bytes), r) ==> {
            let text = host_bytes(*bytes);
            let owed = register_standard_result(old(l)@, call@, admin, asset_type, text);
            &&& r is Ok ==> owed == Ok::<State, Abort>(final(l)@)
            &&& r is Err ==> owed == Err::<State, Abort>(r->Err_0) && final(l)@ == old(l)@
        },
{
}

/// A submission that is accepted leaves the record that was submitted as the latest of the asset,
/// with the time of the call; one that is refused leaves everything as it was.
pub proof fn submitted_records_are_kept(
    l: &mut Lifecycle,
    call: &Call,
    asset_id: u64,
    task_type: Symbol,
    priority: Priority,
    notes: &soroban_sdk::String,
    engineer: Address,
    cost: Option<u64>,
    r: Result<(), Abort>,
)
    requires
        old(l)@.wf(),
        call_ensures(
            Lifecycle::submit_maintenance,
            (l, call, asset_id, task_type, priority, notes, engineer, cost),
            r,
        ),
    ensures
        r is Err ==> final(l)@ == old(l)@,
        ({
            let text = host_string_bytes(*notes);
            let owed = submitted(
                old(l)@,
                call@,
                asset_id,
                task_type,
                priority,
                text,
                engineer,
                cost,
            );
            &&& r is Ok ==> owed == Ok::<State, Abort>(final(l)@)
            &&& r is Err ==> owed == Err::<State, Abort>(r->Err_0)
            &&& r is Ok ==> {
                let h = final(l)@.asset(asset_id).history;
                h.len() > 0 && h[h.len() - 1] == (RecordView {
                    asset_id,
                    task_type,
                    priority,
                    notes: text,
                    engineer,
                    timestamp: call@.now,
                    cost,
                })
            }
        }),
{
}

/// A batch that is accepted has the effect that is owed for its records, each with the type, the
/// priority and the notes that were given, and for its costs; one that is refused has none.
pub proof fn batches_have_their_effect(
    l: &mut Lifecycle,
    call: &Call,
    asset_id: u64,
    list: &Vec<BatchRecord>,
    engineer: Address,
    costs: Option<Vec<Option<u64>>>,
    views: Seq<BatchView>,
    prices: Option<Seq<Option<u64>>>,
    r: Result<(), Abort>,
)
    requires
        old(l)@.wf(),
        call_ensures(
            Lifecycle::batch_submit_maintenance,
            (l, call, asset_id, list, engineer, costs),
            r,
        ),
        views.len() == list@.len(),
        forall|i: int|
            0 <= i < list@.len() ==> (#[trigger] views[i]).task_type == list@[i].task_type
                && views[i].priority == list@[i].priority && views[i].notes
                == host_string_bytes(list@[i].notes),
        costs is Some <==> prices is Some,
        costs is Some ==> prices->0 == costs->0@,
    ensures
        ({
            let owed = batch_submitted(old(l)@, call@, asset_id, views, engineer, prices);
            &&& r is Ok ==> owed == Ok::<State, Abort>(final(l)@)
            &&& r is Err ==> owed == Err::<State, Abort>(r->Err_0) && final(l)@ == old(l)@
        }),
{
    assert(views =~= batch(list@));
    assert(prices == costs_view(costs));
}

} // verus!
