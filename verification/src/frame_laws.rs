//! Laws of what stays: an operation changes what it names, and nothing else of the state.

use vstd::prelude::*;

use crate::call::CallView;
use crate::errors::Abort;
use crate::governance::{
    accept_admin_result, execute_upgrade_result, execution, pause_result, propose_admin_result,
    propose_config_update_result, propose_pause_result, propose_unpause_result,
    propose_upgrade_result, set_admin_quorum_result, unpause_result,
};
use crate::maintenance::{batch_submitted, submitted};
use crate::names::{short_symbol, Address, Symbol};
use crate::ownership::{
    authorize_engineer_result, clear_engineer_authorizations_result, decommission_notify_result,
    execute_revoke_engineer_auth_result, propose_revoke_engineer_auth_result,
    record_transfer_result, transfer_notify_result,
};
use crate::recurring::{auto_create_recurring_task_result, schedule_recurring_task_result};
use crate::scores::{after_decay, decay_check, decay_value, force_decay_result, reset_score_result};
use crate::scoring::decayed;
use crate::settings::{
    initialize_result, set_eligibility_threshold_result, set_max_notes_length_result,
    set_max_submissions_per_hour_result, set_task_weight_result, update_asset_registry_result,
    update_decay_config_result, update_eligibility_threshold_result,
    update_engineer_registry_result, update_max_history_result, update_max_notes_length_result,
    update_score_increment_result, update_scoring_weights_result, AST_REG, DEC_CFG, ELIG, ENG_REG,
    MAX_HIST, MAX_NOTE, SC_INC,
};
use crate::state::{outcome, State};
use crate::types::{
    AssetView, BatchView, ConfigView, Priority, TimelockProposal, WasmHash,
};
use crate::upkeep::{
    mark_duplicate_result, prune_asset_history_result, purge_asset_data_result,
    register_standard_result,
};

verus! {

/// A call that is refused returns the reason and changes nothing; one that is not has exactly the
/// effect that is owed.
pub proof fn refused_calls_change_nothing(
    r: Result<(), Abort>,
    before: State,
    after: State,
    expected: Result<State, Abort>,
)
    requires
        outcome(r, before, after, expected),
    ensures
        r is Err ==> after == before && expected == Err::<State, Abort>(r->Err_0),
        r is Ok ==> expected == Ok::<State, Abort>(after),
{
}

/// A submission and a batch change the asset that they name, the engineer who makes them, and what
/// has been announced.
pub proof fn submissions_change_their_asset_and_engineer(
    s: State,
    call: CallView,
    asset_id: u64,
    task_type: Symbol,
    priority: Priority,
    notes: Seq<u8>,
    engineer: Address,
    cost: Option<u64>,
    list: Seq<BatchView>,
    costs: Option<Seq<Option<u64>>>,
)
    ensures
        submitted(s, call, asset_id, task_type, priority, notes, engineer, cost) matches Ok(t)
            ==> {
            let (a, b) = (s.asset(asset_id), t.asset(asset_id));
            &&& t == (State { assets: t.assets, engineers: t.engineers, events: t.events, ..s })
            &&& t.assets == s.assets.insert(asset_id, b)
            &&& t.engineers == s.engineers.insert(engineer, t.engineer(engineer))
            &&& b == (AssetView {
                history: b.history,
                credits: b.credits,
                score: b.score,
                last_update: b.last_update,
                last_service: b.last_service,
                score_history: b.score_history,
                valuations: b.valuations,
                ..a
            })
        },
        batch_submitted(s, call, asset_id, list, engineer, costs) matches Ok(t) ==> {
            let (a, b) = (s.asset(asset_id), t.asset(asset_id));
            &&& t == (State { assets: t.assets, engineers: t.engineers, events: t.events, ..s })
            &&& t.assets == s.assets.insert(asset_id, b)
            &&& t.engineers == s.engineers.insert(engineer, t.engineer(engineer))
            &&& b == (AssetView {
                history: b.history,
                credits: b.credits,
                score: b.score,
                last_update: b.last_update,
                last_service: b.last_service,
                score_history: b.score_history,
                valuations: b.valuations,
                ..a
            })
        },
{
}

/// Bringing a score up to date changes the score of the asset, its time and its lists, and only
/// where the asset is in service, has a score, and has lost part of it; a reset also takes the
/// history.
pub proof fn scores_change_alone(s: State, call: CallView, admin: Address, asset_id: u64)
    ensures
        ({
            let t = after_decay(s, call, asset_id);
            let (a, b) = (s.asset(asset_id), t.asset(asset_id));
            &&& t == (State { assets: t.assets, events: t.events, ..s })
            &&& t != s ==> t.assets == s.assets.insert(asset_id, b)
            &&& b == (AssetView {
                score: b.score,
                last_update: b.last_update,
                score_history: b.score_history,
                valuations: b.valuations,
                ..a
            })
            &&& a.frozen || a.score == 0 ==> t == s
            &&& a.frozen ==> decay_value(s, call, asset_id) == 0
            &&& !a.frozen ==> decay_value(s, call, asset_id) == decayed(
                a,
                s.config->0,
                call.now,
            )
        }),
        force_decay_result(s, call, admin, asset_id) matches Ok(t) ==> t == after_decay(
            s,
            call,
            asset_id,
        ) && decay_check(s, asset_id) is None,
        reset_score_result(s, call, admin, asset_id) matches Ok(t) ==> {
            let (a, b) = (s.asset(asset_id), t.asset(asset_id));
            &&& t == (State { assets: t.assets, events: t.events, ..s })
            &&& t.assets == s.assets.insert(asset_id, b)
            &&& b == (AssetView {
                history: Seq::empty(),
                credits: Seq::empty(),
                score: 0,
                last_update: Some(call.now),
                score_history: b.score_history,
                valuations: b.valuations,
                ..a
            })
        },
{
}

/// Pruning cuts the four lists of an asset that grow with its maintenance; purging empties them and
/// takes the score and its times; marking a duplicate adds to the marks. The rest of the asset
/// stays, among it who is authorized, the transfers, the snapshots and the tasks.
pub proof fn upkeep_changes_these_lists(
    s: State,
    call: CallView,
    admin: Address,
    asset_id: u64,
    primary_id: u64,
    duplicate_id: u64,
)
    ensures
        prune_asset_history_result(s, call, admin, asset_id) matches Ok(t) ==> {
            let (a, b) = (s.asset(asset_id), t.asset(asset_id));
            &&& t == (State { assets: t.assets, engineers: t.engineers, events: t.events, ..s })
            &&& t.assets == s.assets.insert(asset_id, b)
            &&& b == (AssetView {
                history: b.history,
                credits: b.credits,
                score_history: b.score_history,
                valuations: b.valuations,
                ..a
            })
        },
        purge_asset_data_result(s, call, admin, asset_id) matches Ok(t) ==> {
            let (a, b) = (s.asset(asset_id), t.asset(asset_id));
            &&& t == (State { assets: t.assets, engineers: t.engineers, events: t.events, ..s })
            &&& t.assets == s.assets.insert(asset_id, b)
            &&& b == (AssetView {
                history: Seq::empty(),
                credits: Seq::empty(),
                score: 0,
                last_update: None,
                last_service: None,
                score_history: Seq::empty(),
                valuations: Seq::empty(),
                ..a
            })
        },
        mark_duplicate_result(s, call, admin, asset_id, primary_id, duplicate_id) matches Ok(t)
            ==> {
            let (a, b) = (s.asset(asset_id), t.asset(asset_id));
            &&& t == (State { assets: t.assets, events: t.events, ..s })
            &&& t.assets == s.assets.insert(asset_id, b)
            &&& b == (AssetView { duplicates: a.duplicates.push(duplicate_id), ..a })
        },
{
}

/// What an owner does changes the authorizations and the revocations of the asset, and a transfer
/// also its history and its provenance; a report of the registry changes the authorizations, or
/// takes the asset out of service.
pub proof fn ownership_changes_these_parts(
    s: State,
    call: CallView,
    owner: Address,
    asset_id: u64,
    engineer: Address,
    previous_owner: Address,
)
    ensures
        authorize_engineer_result(s, call, owner, asset_id, engineer) matches Ok(t) ==> {
            let (a, b) = (s.asset(asset_id), t.asset(asset_id));
            &&& t == (State { assets: s.assets.insert(asset_id, b), ..s })
            &&& b == (AssetView { authorized: a.authorized.insert(engineer), ..a })
        },
        propose_revoke_engineer_auth_result(s, call, owner, asset_id, engineer) matches Ok(t)
            ==> {
            let (a, b) = (s.asset(asset_id), t.asset(asset_id));
            let p = TimelockProposal { proposed_at: call.now, executed: false };
            &&& t == (State { assets: s.assets.insert(asset_id, b), events: t.events, ..s })
            &&& b == (AssetView { revocations: a.revocations.insert(engineer, p), ..a })
        },
        execute_revoke_engineer_auth_result(s, call, owner, asset_id, engineer) matches Ok(t)
            ==> {
            let (a, b) = (s.asset(asset_id), t.asset(asset_id));
            let p = TimelockProposal {
                proposed_at: a.revocations[engineer].proposed_at,
                executed: true,
            };
            &&& t == (State { assets: s.assets.insert(asset_id, b), events: t.events, ..s })
            &&& b == (AssetView {
                revocations: a.revocations.insert(engineer, p),
                authorized: a.authorized.remove(engineer),
                ..a
            })
        },
        clear_engineer_authorizations_result(s, call, owner, asset_id) matches Ok(t) ==> {
            let (a, b) = (s.asset(asset_id), t.asset(asset_id));
            &&& t == (State { assets: s.assets.insert(asset_id, b), ..s })
            &&& b == (AssetView { authorized: Set::empty(), ..a })
        },
        record_transfer_result(s, call, asset_id, previous_owner, owner) matches Ok(t) ==> {
            let (a, b) = (s.asset(asset_id), t.asset(asset_id));
            &&& t == (State { assets: s.assets.insert(asset_id, b), events: t.events, ..s })
            &&& b == (AssetView {
                history: b.history,
                credits: b.credits,
                transfers: b.transfers,
                authorized: Set::empty(),
                ..a
            })
        },
        transfer_notify_result(s, call, asset_id, owner) matches Ok(t) ==> {
            let (a, b) = (s.asset(asset_id), t.asset(asset_id));
            &&& t == (State { assets: s.assets.insert(asset_id, b), events: t.events, ..s })
            &&& b == (AssetView { authorized: Set::empty(), ..a })
        },
        decommission_notify_result(s, call, asset_id) matches Ok(t) ==> {
            let (a, b) = (s.asset(asset_id), t.asset(asset_id));
            &&& t == (State { assets: s.assets.insert(asset_id, b), events: t.events, ..s })
            &&& b == (AssetView { frozen: true, score: 0, ..a })
        },
{
}

/// Scheduling changes the tasks of the asset; carrying a task out also its history and the times
/// of its last update and service, but not its score.
pub proof fn tasks_change_these_parts(
    s: State,
    call: CallView,
    who: Address,
    asset_id: u64,
    task_id: u64,
    task_type: Symbol,
    interval_type: Symbol,
    interval_value: u64,
)
    ensures
        schedule_recurring_task_result(
            s,
            call,
            who,
            asset_id,
            task_id,
            task_type,
            interval_type,
            interval_value,
        ) matches Ok(t) ==> {
            let (a, b) = (s.asset(asset_id), t.asset(asset_id));
            &&& t == (State { assets: s.assets.insert(asset_id, b), events: t.events, ..s })
            &&& b == (AssetView { tasks: b.tasks, ..a })
        },
        auto_create_recurring_task_result(s, call, asset_id, task_id, who) matches Ok(t) ==> {
            let (a, b) = (s.asset(asset_id), t.asset(asset_id));
            &&& t == (State { assets: s.assets.insert(asset_id, b), events: t.events, ..s })
            &&& b == (AssetView {
                history: b.history,
                credits: b.credits,
                tasks: b.tasks,
                last_update: Some(call.now),
                last_service: Some(call.now),
                ..a
            })
        },
{
}

/// Each setting is changed alone.
pub proof fn settings_change_alone(
    s: State,
    call: CallView,
    admin: Address,
    x: u32,
    y: u64,
    task_type: Symbol,
)
    ensures
        update_score_increment_result(s, call, admin, x) matches Ok(t) ==> t == (State {
            config: Some(ConfigView { score_increment: x, ..s.config->0 }),
            events: t.events,
            ..s
        }),
        update_decay_config_result(s, call, admin, x, y) matches Ok(t) ==> t == (State {
            config: Some(ConfigView { decay_rate: x, decay_interval: y, ..s.config->0 }),
            events: t.events,
            ..s
        }),
        update_eligibility_threshold_result(s, call, admin, x) matches Ok(t) ==> t == (State {
            config: Some(ConfigView { eligibility_threshold: x, ..s.config->0 }),
            events: t.events,
            ..s
        }),
        update_max_history_result(s, call, admin, x) matches Ok(t) ==> t == (State {
            config: Some(ConfigView { max_history: x, ..s.config->0 }),
            events: t.events,
            ..s
        }),
        update_max_notes_length_result(s, call, admin, x) matches Ok(t) ==> t == (State {
            config: Some(ConfigView { max_notes_length: x, ..s.config->0 }),
            events: t.events,
            ..s
        }),
        set_max_notes_length_result(s, call, admin, x) matches Ok(t) ==> t == (State {
            config: Some(ConfigView { max_notes_length: x, ..s.config->0 }),
            events: t.events,
            ..s
        }),
        set_eligibility_threshold_result(s, call, admin, x) matches Ok(t) ==> t == (State {
            config: Some(ConfigView { eligibility_threshold: x, ..s.config->0 }),
            events: t.events,
            ..s
        }),
        set_max_submissions_per_hour_result(s, call, admin, x) matches Ok(t) ==> t == (State {
            config: Some(ConfigView { max_submissions_per_hour: x, ..s.config->0 }),
            events: t.events,
            ..s
        }),
        set_task_weight_result(s, call, admin, task_type, x) matches Ok(t) ==> t == (State {
            config: Some(
                ConfigView {
                    task_weights: (s.config->0).task_weights.insert(task_type, x),
                    ..s.config->0
                },
            ),
            events: t.events,
            ..s
        }),
{
}

/// A registry, the weights of an asset type, a standard and the quorum are changed alone, and
/// initializing sets the settings and the registries.
pub proof fn registries_change_alone(
    s: State,
    call: CallView,
    deployer: Address,
    admin: Address,
    first: Address,
    second: Address,
    asset_type: Symbol,
    text: Seq<u8>,
    admins: Seq<Address>,
    x: u32,
)
    ensures
        update_asset_registry_result(s, call, admin, first) matches Ok(t) ==> t == (State {
            asset_registry: Some(first),
            events: t.events,
            ..s
        }),
        update_engineer_registry_result(s, call, admin, first) matches Ok(t) ==> t == (State {
            engineer_registry: Some(first),
            events: t.events,
            ..s
        }),
        update_scoring_weights_result(s, call, admin, asset_type, text) matches Ok(t) ==> t
            == (State {
            scoring_weights: s.scoring_weights.insert(asset_type, text),
            events: t.events,
            ..s
        }),
        register_standard_result(s, call, admin, asset_type, text) matches Ok(t) ==> t == (State {
            standards: s.standards.insert(asset_type, text),
            events: t.events,
            ..s
        }),
        set_admin_quorum_result(s, call, admin, admins, x) matches Ok(t) ==> t == (State {
            config: Some(ConfigView { admins, admin_threshold: x, ..s.config->0 }),
            events: t.events,
            ..s
        }),
        initialize_result(s, call, deployer, first, second, admin, x) matches Ok(t) ==> t
            == (State {
            config: t.config,
            asset_registry: Some(first),
            engineer_registry: Some(second),
            events: t.events,
            ..s
        }),
{
}

/// A proposal leaves its date under the name of the operation, and with it what is offered. The
/// names are `PAUSE`, `UNPAUSE`, `ADM_XFER` and `UPGRADE`.
pub proof fn proposals_change_alone(
    s: State,
    call: CallView,
    admin: Address,
    new_admin: Address,
    hash: WasmHash,
    op: Symbol,
)
    ensures
        ({
            let p = TimelockProposal { proposed_at: call.now, executed: false };
            &&& propose_config_update_result(s, call, admin, op) matches Ok(t) ==> t == (State {
                timelocks: s.timelocks.insert(op, p),
                ..s
            })
            &&& propose_pause_result(s, call, admin) matches Ok(t) ==> t == (State {
                timelocks: s.timelocks.insert(Symbol { head: 0x50_4155_5345, tail: 0 }, p),
                events: t.events,
                ..s
            })
            &&& propose_unpause_result(s, call, admin) matches Ok(t) ==> t == (State {
                timelocks: s.timelocks.insert(Symbol { head: 0x55_4e50_4155_5345, tail: 0 }, p),
                events: t.events,
                ..s
            })
            &&& propose_admin_result(s, call, admin, new_admin) matches Ok(t) ==> t == (State {
                timelocks: s.timelocks.insert(Symbol { head: 0x4144_4d5f_5846_4552, tail: 0 }, p),
                pending_admin: Some(new_admin),
                events: t.events,
                ..s
            })
            &&& propose_upgrade_result(s, call, admin, hash) matches Ok(t) ==> t == (State {
                timelocks: s.timelocks.insert(Symbol { head: 0x55_5047_5241_4445, tail: 0 }, p),
                pending_upgrade: Some(hash),
                events: t.events,
                ..s
            })
        }),
{
}

/// The execution of a proposal marks it, keeps its date, and else does what its operation does;
/// the role and the upgrade that were offered are then no longer pending.
pub proof fn executions_mark_their_proposal(
    s: State,
    call: CallView,
    admin: Address,
    op: Symbol,
    effect: spec_fn(State) -> Result<State, Abort>,
)
    ensures
        execution(s, call.now, op, effect) is Ok ==> execution(s, call.now, op, effect) == effect(
            State {
                timelocks: s.timelocks.insert(
                    op,
                    TimelockProposal { proposed_at: s.timelocks[op].proposed_at, executed: true },
                ),
                ..s
            },
        ),
        accept_admin_result(s, call) matches Ok(t) ==> {
            let name = Symbol { head: 0x4144_4d5f_5846_4552, tail: 0 };
            let p = TimelockProposal { proposed_at: s.timelocks[name].proposed_at, executed: true };
            t == (State {
                config: Some(ConfigView { admin: s.pending_admin->0, ..s.config->0 }),
                pending_admin: None,
                timelocks: s.timelocks.insert(name, p),
                events: t.events,
                ..s
            })
        },
        execute_upgrade_result(s, call, admin) matches Ok(t) ==> {
            let name = Symbol { head: 0x55_5047_5241_4445, tail: 0 };
            let p = TimelockProposal { proposed_at: s.timelocks[name].proposed_at, executed: true };
            t == (State {
                pending_upgrade: None,
                timelocks: s.timelocks.insert(name, p),
                events: t.events,
                ..s
            }) && s.pending_upgrade is Some
        },
{
}

/// The operations that change settings are proposed under names of their own: `SC_INC`, `DEC_CFG`,
/// `ELIG`, `MAX_HIST`, `MAX_NOTE`, `AST_REG` and `ENG_REG`, each spelled in its own letters.
pub proof fn operations_have_names_of_their_own()
    ensures
        short_symbol(SC_INC) == (Symbol { head: 0x5343_5f49_4e43, tail: 0 }),
        short_symbol(DEC_CFG) == (Symbol { head: 0x44_4543_5f43_4647, tail: 0 }),
        short_symbol(ELIG) == (Symbol { head: 0x454c_4947, tail: 0 }),
        short_symbol(MAX_HIST) == (Symbol { head: 0x4d41_585f_4849_5354, tail: 0 }),
        short_symbol(MAX_NOTE) == (Symbol { head: 0x4d41_585f_4e4f_5445, tail: 0 }),
        short_symbol(AST_REG) == (Symbol { head: 0x41_5354_5f52_4547, tail: 0 }),
        short_symbol(ENG_REG) == (Symbol { head: 0x45_4e47_5f52_4547, tail: 0 }),
{
}

} // verus!
