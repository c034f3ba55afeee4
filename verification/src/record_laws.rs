//! Laws of records: submissions, authorizations, histories and what is told of them.

use vstd::prelude::*;

use crate::arith::{capped, capped64};
use crate::call::CallView;
use crate::engineers::{
    counted, lemma_assets_with, lemma_forgets_wf, window_after, within_rate, SUBMISSION_WINDOW_SECS,
};
use crate::errors::{Abort, LifecycleError};
use crate::history::{
    engineers, overdue, prediction, reasonable, service_times, similar, similar_pairs, similar_to,
    DAY_SECS, MAX_INTERVAL_SECS,
};
use crate::lists::{distinct, keep_last, lemma_distinct, lemma_filter_distinct, page};
use crate::maintenance::{
    batch_record, batch_submitted, in_force, score_after, service_check, submission_check,
    submitted,
};
use crate::names::{Address, Symbol};
use crate::ownership::{
    authorize_engineer_result, clear_engineer_authorizations_result, decommission_notify_result,
    execute_revoke_engineer_auth_result, propose_revoke_engineer_auth_result,
    record_transfer_result, sentinel, transfer_notify_result,
};
use crate::governance::TIMELOCK_DELAY_SECS;
use crate::recurring::{
    auto_create_recurring_task_result, schedule_recurring_task_result, task_place,
};
use crate::scores::{after_decay, reset_score_result};
use crate::settings::update_scoring_weights_result;
use crate::state::State;
use crate::types::{BatchView, ConfigView, EngineerView, Priority, RecordView, TransferRecord};
use crate::upkeep::{
    absent_from, dropped_engineers, prune_asset_history_result, purge_asset_data_result,
    register_standard_result,
};
use crate::weights::weights_in;

verus! {

/// A submission that is accepted is the latest record of the asset, behind the records that were
/// there, of which the oldest make room where the history is full.
pub proof fn submissions_are_recorded(
    s: State,
    call: CallView,
    asset_id: u64,
    task_type: Symbol,
    priority: Priority,
    notes: Seq<u8>,
    engineer: Address,
    cost: Option<u64>,
)
    requires
        s.wf(),
        submitted(s, call, asset_id, task_type, priority, notes, engineer, cost) is Ok,
    ensures
        ({
            let t = submitted(s, call, asset_id, task_type, priority, notes, engineer, cost)->Ok_0;
            let max = s.config->0.max_history;
            let (old_history, new_history) = (s.asset(asset_id).history, t.asset(asset_id).history);
            &&& new_history.last() == RecordView {
                asset_id,
                task_type,
                priority,
                notes,
                engineer,
                timestamp: call.now,
                cost,
            }
            &&& new_history.len() <= max
            &&& new_history.drop_last() == keep_last(old_history, (max - 1) as nat)
            &&& old_history.len() < max ==> new_history.drop_last() == old_history
            &&& t.asset(asset_id).last_update == Some(call.now)
            &&& t.asset(asset_id).last_service == Some(call.now)
        }),
{
    let t = submitted(s, call, asset_id, task_type, priority, notes, engineer, cost)->Ok_0;
    let h = keep_last(s.asset(asset_id).history, (s.config->0.max_history - 1) as nat);
    assert(t.asset(asset_id).history.drop_last() =~= h);
}

/// Only an engineer who has signed, whose credential is in force, whom the owner has authorized
/// and who is specialized in the type of the asset submits, and only for an asset in service.
pub proof fn submissions_need_an_entitled_engineer(
    s: State,
    call: CallView,
    asset_id: u64,
    task_type: Symbol,
    priority: Priority,
    notes: Seq<u8>,
    engineer: Address,
    cost: Option<u64>,
)
    requires
        submitted(s, call, asset_id, task_type, priority, notes, engineer, cost) is Ok,
    ensures
        !s.paused,
        call.signers.contains(engineer),
        call.assets.contains_key(asset_id),
        !call.assets[asset_id].decommissioned,
        in_force(call.engineer(engineer).status),
        s.asset(asset_id).authorized.contains(engineer),
        call.engineer(engineer).specializations.contains(call.assets[asset_id].asset_type),
        0 < notes.len() <= s.config->0.max_notes_length,
{
}

/// A submission touches one asset and one engineer.
pub proof fn submissions_touch_one_asset(
    s: State,
    call: CallView,
    asset_id: u64,
    task_type: Symbol,
    priority: Priority,
    notes: Seq<u8>,
    engineer: Address,
    cost: Option<u64>,
    other_asset: u64,
    other_engineer: Address,
)
    requires
        submitted(s, call, asset_id, task_type, priority, notes, engineer, cost) is Ok,
        other_asset != asset_id,
        other_engineer != engineer,
    ensures
        ({
            let t = submitted(s, call, asset_id, task_type, priority, notes, engineer, cost)->Ok_0;
            &&& t.asset(other_asset) == s.asset(other_asset)
            &&& t.engineer(other_engineer) == s.engineer(other_engineer)
            &&& t.config == s.config
            &&& t.asset(asset_id).authorized == s.asset(asset_id).authorized
            &&& t.asset(asset_id).frozen == s.asset(asset_id).frozen
        }),
{
}

/// After a submission the engineer's list holds the asset, and every asset once.
pub proof fn submissions_list_the_asset(
    s: State,
    call: CallView,
    asset_id: u64,
    task_type: Symbol,
    priority: Priority,
    notes: Seq<u8>,
    engineer: Address,
    cost: Option<u64>,
)
    requires
        s.wf(),
        submitted(s, call, asset_id, task_type, priority, notes, engineer, cost) is Ok,
    ensures
        ({
            let t = submitted(s, call, asset_id, task_type, priority, notes, engineer, cost)->Ok_0;
            &&& t.engineer(engineer).assets.contains(asset_id)
            &&& t.engineer(engineer).assets.no_duplicates()
        }),
{
    lemma_assets_with(s.engineer(engineer).assets, asset_id, s.config->0.max_history);
}

/// A batch that is accepted adds exactly its records, in order, behind those that were there.
pub proof fn batches_are_recorded_whole(
    s: State,
    call: CallView,
    asset_id: u64,
    list: Seq<BatchView>,
    engineer: Address,
    costs: Option<Seq<Option<u64>>>,
)
    requires
        batch_submitted(s, call, asset_id, list, engineer, costs) is Ok,
    ensures
        ({
            let t = batch_submitted(s, call, asset_id, list, engineer, costs)->Ok_0;
            let (old_history, new_history) = (s.asset(asset_id).history, t.asset(asset_id).history);
            &&& new_history.len() == old_history.len() + list.len()
            &&& new_history.len() <= s.config->0.max_history
            &&& new_history.take(old_history.len() as int) == old_history
            &&& forall|i: int|
                0 <= i < list.len() ==> #[trigger] new_history[old_history.len() + i]
                    == batch_record(asset_id, list, i, engineer, costs, call.now)
            &&& t.events.len() == s.events.len() + list.len()
        }),
{
    let t = batch_submitted(s, call, asset_id, list, engineer, costs)->Ok_0;
    let h = s.asset(asset_id).history;
    assert(t.asset(asset_id).history.take(h.len() as int) =~= h);
}

/// A batch touches one asset and one engineer.
pub proof fn batches_touch_one_asset(
    s: State,
    call: CallView,
    asset_id: u64,
    list: Seq<BatchView>,
    engineer: Address,
    costs: Option<Seq<Option<u64>>>,
    other_asset: u64,
    other_engineer: Address,
)
    requires
        batch_submitted(s, call, asset_id, list, engineer, costs) is Ok,
        other_asset != asset_id,
        other_engineer != engineer,
    ensures
        ({
            let t = batch_submitted(s, call, asset_id, list, engineer, costs)->Ok_0;
            &&& t.asset(other_asset) == s.asset(other_asset)
            &&& t.engineer(other_engineer) == s.engineer(other_engineer)
            &&& t.config == s.config
            &&& t.asset(asset_id).authorized == s.asset(asset_id).authorized
            &&& t.asset(asset_id).frozen == s.asset(asset_id).frozen
        }),
{
}

/// A batch of one record does to the asset what its single submission does.
pub proof fn batch_of_one_is_a_submission(
    s: State,
    call: CallView,
    asset_id: u64,
    record: BatchView,
    engineer: Address,
    cost: Option<u64>,
)
    requires
        s.wf(),
        batch_submitted(s, call, asset_id, seq![record], engineer, Some(seq![cost])) is Ok,
    ensures
        ({
            let single = submitted(
                s,
                call,
                asset_id,
                record.task_type,
                record.priority,
                record.notes,
                engineer,
                cost,
            );
            let t = batch_submitted(
                s,
                call,
                asset_id,
                seq![record],
                engineer,
                Some(seq![cost]),
            )->Ok_0;
            &&& single is Ok
            &&& t.asset(asset_id) == single->Ok_0.asset(asset_id)
            &&& t.engineer(engineer).assets == single->Ok_0.engineer(engineer).assets
        }),
{
    let list = seq![record];
    let c = s.config->0;
    let rep = call.engineer(engineer).reputation;
    assert(list.drop_last() =~= Seq::<BatchView>::empty());
    assert(list.last() == record);
    reveal_with_fuel(crate::maintenance::contents_check, 2);
    reveal_with_fuel(score_after, 2);
    let t = batch_submitted(s, call, asset_id, list, engineer, Some(seq![cost]))->Ok_0;
    let u = submitted(
        s,
        call,
        asset_id,
        record.task_type,
        record.priority,
        record.notes,
        engineer,
        cost,
    )->Ok_0;
    assert(t.asset(asset_id).history =~= u.asset(asset_id).history);
    assert(t.asset(asset_id).credits =~= u.asset(asset_id).credits);
}

/// Nothing is submitted for an asset that the registry lists as out of service.
pub proof fn decommissioned_assets_take_no_submissions(
    s: State,
    call: CallView,
    asset_id: u64,
    task_type: Symbol,
    priority: Priority,
    notes: Seq<u8>,
    engineer: Address,
    cost: Option<u64>,
    list: Seq<BatchView>,
    costs: Option<Seq<Option<u64>>>,
)
    requires
        call.assets.contains_key(asset_id),
        call.assets[asset_id].decommissioned,
    ensures
        submitted(s, call, asset_id, task_type, priority, notes, engineer, cost) is Err,
        batch_submitted(s, call, asset_id, list, engineer, costs) is Err,
        service_check(s, call, asset_id, engineer) == Some(
            Abort::Error(LifecycleError::AssetDecommissioned),
        ) || s.asset_registry is None,
{
}

/// An authorization holds from when it is given, and for that engineer only.
pub proof fn authorizations_are_given(
    s: State,
    call: CallView,
    owner: Address,
    asset_id: u64,
    engineer: Address,
    other: Address,
)
    requires
        authorize_engineer_result(s, call, owner, asset_id, engineer) is Ok,
        other != engineer,
    ensures
        ({
            let t = authorize_engineer_result(s, call, owner, asset_id, engineer)->Ok_0;
            &&& call.assets[asset_id].owner == owner
            &&& t.asset(asset_id).authorized.contains(engineer)
            &&& t.asset(asset_id).authorized.contains(other) == s.asset(
                asset_id,
            ).authorized.contains(other)
        }),
{
}

/// A revocation takes effect only after its delay and only once; the engineer is then no longer
/// authorized.
pub proof fn revocations_wait(
    s: State,
    call: CallView,
    later: CallView,
    owner: Address,
    asset_id: u64,
    engineer: Address,
)
    requires
        propose_revoke_engineer_auth_result(s, call, owner, asset_id, engineer) is Ok,
    ensures
        ({
            let t = propose_revoke_engineer_auth_result(s, call, owner, asset_id, engineer)->Ok_0;
            &&& t.asset(asset_id).authorized == s.asset(asset_id).authorized
            &&& later.now < call.now + TIMELOCK_DELAY_SECS ==> execute_revoke_engineer_auth_result(
                t,
                later,
                owner,
                asset_id,
                engineer,
            ) is Err
            &&& execute_revoke_engineer_auth_result(
                t,
                later,
                owner,
                asset_id,
                engineer,
            ) matches Ok(u) ==> {
                &&& !u.asset(asset_id).authorized.contains(engineer)
                &&& execute_revoke_engineer_auth_result(u, later, owner, asset_id, engineer) == Err::<
                    State,
                    Abort,
                >(Abort::Error(LifecycleError::ProposalNotFound))
            }
        }),
{
}

/// A recorded transfer keeps the score and the records, marks the change of owner at the end of
/// the history and in the provenance, and touches no other asset.
pub proof fn transfers_keep_the_history(
    s: State,
    call: CallView,
    asset_id: u64,
    previous_owner: Address,
    new_owner: Address,
    other: u64,
)
    requires
        s.wf(),
        record_transfer_result(s, call, asset_id, previous_owner, new_owner) is Ok,
        other != asset_id,
    ensures
        ({
            let t = record_transfer_result(s, call, asset_id, previous_owner, new_owner)->Ok_0;
            let (a, b) = (s.asset(asset_id), t.asset(asset_id));
            &&& b.score == a.score
            &&& b.score_history == a.score_history
            &&& b.history.last() == sentinel(asset_id, new_owner, call.now)
            &&& a.history.len() < s.config->0.max_history ==> b.history.drop_last() == a.history
            &&& b.transfers == a.transfers.push(
                TransferRecord { from: previous_owner, to: new_owner, timestamp: call.now },
            )
            &&& call.assets[asset_id].owner == new_owner
            &&& t.asset(other) == s.asset(other)
        }),
{
    let t = record_transfer_result(s, call, asset_id, previous_owner, new_owner)->Ok_0;
    if s.asset(asset_id).history.len() < s.config->0.max_history {
        assert(t.asset(asset_id).history.drop_last() =~= s.asset(asset_id).history);
    }
}

/// A change of owner ends all authorizations, however it is made known: no engineer can submit
/// until the new owner authorizes one.
pub proof fn transfers_end_authorizations(
    s: State,
    call: CallView,
    later: CallView,
    asset_id: u64,
    previous_owner: Address,
    new_owner: Address,
    engineer: Address,
)
    ensures
        record_transfer_result(s, call, asset_id, previous_owner, new_owner) matches Ok(t)
            ==> service_check(t, later, asset_id, engineer) is Some,
        transfer_notify_result(s, call, asset_id, new_owner) matches Ok(t) ==> service_check(
            t,
            later,
            asset_id,
            engineer,
        ) is Some && t.asset(asset_id).score == s.asset(asset_id).score,
        clear_engineer_authorizations_result(s, call, new_owner, asset_id) matches Ok(t)
            ==> service_check(t, later, asset_id, engineer) is Some,
{
}

/// An asset that is out of service stays so, whatever is done with it.
pub proof fn frozen_assets_stay_frozen(
    s: State,
    call: CallView,
    asset_id: u64,
    who: Address,
    other: Address,
    task_id: u64,
)
    requires
        s.asset(asset_id).frozen,
    ensures
        after_decay(s, call, asset_id).asset(asset_id).frozen,
        reset_score_result(s, call, who, asset_id) matches Ok(t) ==> t.asset(asset_id).frozen,
        record_transfer_result(s, call, asset_id, who, other) matches Ok(t) ==> t.asset(
            asset_id,
        ).frozen,
        prune_asset_history_result(s, call, who, asset_id) matches Ok(t) ==> t.asset(
            asset_id,
        ).frozen,
        purge_asset_data_result(s, call, who, asset_id) matches Ok(t) ==> t.asset(asset_id).frozen,
        auto_create_recurring_task_result(s, call, asset_id, task_id, who) matches Ok(t)
            ==> t.asset(asset_id).frozen,
        decommission_notify_result(s, call, asset_id) matches Ok(t) ==> t.asset(asset_id).frozen,
{
}

/// The time of the last service outlasts its record: a batch and a recurring task set it, and
/// neither a change of owner nor decay, a reset, pruning or decommissioning changes it.
pub proof fn service_times_outlast_the_records(
    s: State,
    call: CallView,
    asset_id: u64,
    who: Address,
    other: Address,
    list: Seq<BatchView>,
    costs: Option<Seq<Option<u64>>>,
    task_id: u64,
)
    ensures
        batch_submitted(s, call, asset_id, list, who, costs) matches Ok(t) ==> t.asset(
            asset_id,
        ).last_service == Some(call.now),
        auto_create_recurring_task_result(s, call, asset_id, task_id, who) matches Ok(t)
            ==> t.asset(asset_id).last_service == Some(call.now),
        record_transfer_result(s, call, asset_id, other, who) matches Ok(t) ==> t.asset(
            asset_id,
        ).last_service == s.asset(asset_id).last_service,
        transfer_notify_result(s, call, asset_id, who) matches Ok(t) ==> t.asset(
            asset_id,
        ).last_service == s.asset(asset_id).last_service,
        reset_score_result(s, call, who, asset_id) matches Ok(t) ==> t.asset(
            asset_id,
        ).last_service == s.asset(asset_id).last_service,
        prune_asset_history_result(s, call, who, asset_id) matches Ok(t) ==> t.asset(
            asset_id,
        ).last_service == s.asset(asset_id).last_service,
        decommission_notify_result(s, call, asset_id) matches Ok(t) ==> t.asset(
            asset_id,
        ).last_service == s.asset(asset_id).last_service,
        after_decay(s, call, asset_id).asset(asset_id).last_service == s.asset(
            asset_id,
        ).last_service,
{
}

/// Every submission counts: in a window that is open one more, and else as the first of a new one.
pub proof fn submissions_are_counted(window: Option<(u64, u32)>, now: u64)
    requires
        window matches Some(w) ==> w.0 <= now,
    ensures
        counted(Some(window_after(window, now)), now) == capped(counted(window, now) + 1),
{
}

/// Once `limit` submissions have been counted in an open window, the next one exceeds the rate
/// until the window is over.
pub proof fn rate_is_exceeded_at_the_limit(start: u64, count: u32, now: u64, limit: u32)
    requires
        limit > 0,
        start <= now,
    ensures
        within_rate(Some((start, count)), now, limit) == (count < limit || now - start
            >= SUBMISSION_WINDOW_SECS),
        within_rate(Some((start, count)), now, 0),
{
}

/// A rate limit refuses nothing: whether a submission is accepted does not depend on it, nor on
/// how many submissions have been counted.
pub proof fn rate_limits_refuse_nothing(
    s: State,
    call: CallView,
    asset_id: u64,
    task_type: Symbol,
    notes: Seq<u8>,
    engineer: Address,
    limit: u32,
    window: Option<(u64, u32)>,
)
    requires
        s.config is Some,
    ensures
        ({
            let t = s.with_config(
                ConfigView { max_submissions_per_hour: limit, ..s.config->0 },
            ).with_engineer(engineer, EngineerView { window, ..s.engineer(engineer) });
            submission_check(t, call, asset_id, task_type, notes, engineer) == submission_check(
                s,
                call,
                asset_id,
                task_type,
                notes,
                engineer,
            )
        }),
{
}

/// After pruning, no history of the asset is longer than what is set.
pub proof fn pruned_histories_are_bounded(s: State, call: CallView, admin: Address, asset_id: u64)
    requires
        prune_asset_history_result(s, call, admin, asset_id) is Ok,
    ensures
        ({
            let t = prune_asset_history_result(s, call, admin, asset_id)->Ok_0;
            let max = s.config->0.max_history;
            &&& t.asset(asset_id).history.len() <= max
            &&& t.asset(asset_id).score_history.len() <= max
            &&& t.asset(asset_id).valuations.len() <= max
            &&& t.asset(asset_id).history == keep_last(s.asset(asset_id).history, max as nat)
            &&& t.asset(asset_id).score == s.asset(asset_id).score
        }),
{
}

/// After pruning, an engineer who has lost all records of the asset no longer lists it, and
/// everyone else lists what they did.
pub proof fn pruning_updates_the_engineers(
    s: State,
    call: CallView,
    admin: Address,
    asset_id: u64,
    engineer: Address,
)
    requires
        s.wf(),
        s.engineers.contains_key(engineer),
        prune_asset_history_result(s, call, admin, asset_id) is Ok,
        s.asset(asset_id).history.len() > s.config->0.max_history,
    ensures
        ({
            let t = prune_asset_history_result(s, call, admin, asset_id)->Ok_0;
            let h = s.asset(asset_id).history;
            let n = h.len() - s.config->0.max_history;
            let lost = engineers(h.take(n)).contains(engineer) && !engineers(h.skip(n)).contains(
                engineer,
            );
            &&& lost ==> !t.engineer(engineer).assets.contains(asset_id)
            &&& !lost ==> t.engineer(engineer) == s.engineer(engineer)
        }),
{
    let h = s.asset(asset_id).history;
    let n = h.len() - s.config->0.max_history;
    lemma_distinct(engineers(h.take(n)));
    lemma_filter_distinct(distinct(engineers(h.take(n))), absent_from(h.skip(n)));
    lemma_forgets_wf(s.engineers[engineer], asset_id);
    assert(dropped_engineers(h, n).contains(engineer) <==> distinct(engineers(h.take(n))).contains(
        engineer,
    ) && absent_from(h.skip(n))(engineer));
}

/// After purging, nothing is left of the history and the scores of the asset, no engineer of its
/// history lists it, and no other asset is touched.
pub proof fn purging_leaves_nothing(
    s: State,
    call: CallView,
    admin: Address,
    asset_id: u64,
    engineer: Address,
    other: u64,
)
    requires
        s.wf(),
        purge_asset_data_result(s, call, admin, asset_id) is Ok,
        engineers(s.asset(asset_id).history).contains(engineer),
        other != asset_id,
    ensures
        ({
            let t = purge_asset_data_result(s, call, admin, asset_id)->Ok_0;
            &&& t.asset(asset_id).history.len() == 0
            &&& t.asset(asset_id).score == 0
            &&& t.asset(asset_id).score_history.len() == 0
            &&& t.asset(asset_id).valuations.len() == 0
            &&& t.asset(asset_id).last_update is None
            &&& t.asset(asset_id).last_service is None
            &&& !t.engineer(engineer).assets.contains(asset_id)
            &&& t.asset(other) == s.asset(other)
        }),
{
    lemma_distinct(engineers(s.asset(asset_id).history));
    assert(distinct(engineers(s.asset(asset_id).history)).contains(engineer));
    if s.engineers.contains_key(engineer) {
        lemma_forgets_wf(s.engineers[engineer], asset_id);
    }
}

/// A prediction lies between a day and five years after the last service of the type.
pub proof fn predictions_are_reasonable(h: Seq<RecordView>, task_type: Symbol)
    requires
        prediction(h, task_type) is Ok,
    ensures
        exists|interval: int|
            DAY_SECS <= interval <= MAX_INTERVAL_SECS && #[trigger] capped64(
                service_times(h, task_type).last() + interval,
            ) == prediction(h, task_type)->Ok_0,
{
    let times = service_times(h, task_type);
    let interval = reasonable(
        capped64(crate::history::gap_total(times)) as int / crate::history::gap_count(times),
    );
    assert(capped64(times.last() + interval) == prediction(h, task_type)->Ok_0);
}

/// Every alert names a type that is due in the past, at the time that is predicted for it.
pub proof fn alerts_are_overdue(h: Seq<RecordView>, types: Seq<Symbol>, now: u64)
    ensures
        forall|i: int|
            0 <= i < overdue(h, types, now).len() ==> {
                let alert = #[trigger] overdue(h, types, now)[i];
                types.contains(alert.0) && prediction(h, alert.0) == Ok::<u64, LifecycleError>(
                    alert.1,
                ) && alert.1 < now
            },
    decreases types.len(),
{
    if types.len() > 0 {
        alerts_are_overdue(h, types.drop_last(), now);
        let before = overdue(h, types.drop_last(), now);
        assert forall|i: int| 0 <= i < overdue(h, types, now).len() implies {
            let alert = #[trigger] overdue(h, types, now)[i];
            types.contains(alert.0) && prediction(h, alert.0) == Ok::<u64, LifecycleError>(alert.1)
                && alert.1 < now
        } by {
            if i < before.len() {
                let x = before[i].0;
                assert(types.drop_last().contains(x));
                let k = choose|k: int| 0 <= k < types.drop_last().len() && types.drop_last()[k] == x;
                assert(types[k] == x);
            } else {
                assert(types[types.len() - 1] == types.last());
            }
        }
    }
}

/// Every type that is overdue is named by an alert.
pub proof fn overdue_types_raise_alerts(h: Seq<RecordView>, types: Seq<Symbol>, now: u64, t: Symbol)
    requires
        types.contains(t),
        prediction(h, t) matches Ok(due) && now > due,
    ensures
        overdue(h, types, now).contains((t, prediction(h, t)->Ok_0)),
    decreases types.len(),
{
    let alert = (t, prediction(h, t)->Ok_0);
    let before = overdue(h, types.drop_last(), now);
    if types.last() == t {
        assert(overdue(h, types, now)[before.len() as int] == alert);
    } else {
        let k = choose|k: int| 0 <= k < types.len() && types[k] == t;
        assert(types.drop_last()[k] == t);
        overdue_types_raise_alerts(h, types.drop_last(), now, t);
        let i = choose|i: int| 0 <= i < before.len() && before[i] == alert;
        assert(overdue(h, types, now)[i] == alert);
    }
}

proof fn lemma_similar_to(h: Seq<RecordView>, i: int, j: int, window: u64, pair: (u64, u64))
    ensures
        similar_to(h, i, j, window).contains(pair) <==> exists|k: int|
            i < k < j && #[trigger] similar(h[i], h[k], window) && pair == (
                h[i].timestamp,
                h[k].timestamp,
            ),
    decreases j - i,
{
    if j > i + 1 {
        let before = similar_to(h, i, j - 1, window);
        let all = similar_to(h, i, j, window);
        lemma_similar_to(h, i, j - 1, window, pair);
        if all.contains(pair) {
            let x = choose|x: int| 0 <= x < all.len() && all[x] == pair;
            if x < before.len() {
                assert(before[x] == pair);
                assert(before.contains(pair));
            } else {
                assert(similar(h[i], h[j - 1], window));
            }
        }
        if exists|k: int|
            i < k < j && #[trigger] similar(h[i], h[k], window) && pair == (
                h[i].timestamp,
                h[k].timestamp,
            ) {
            let k = choose|k: int|
                i < k < j && #[trigger] similar(h[i], h[k], window) && pair == (
                    h[i].timestamp,
                    h[k].timestamp,
                );
            if k == j - 1 {
                assert(all[before.len() as int] == pair);
            } else {
                assert(before.contains(pair));
                let x = choose|x: int| 0 <= x < before.len() && before[x] == pair;
                assert(all[x] == pair);
            }
        }
    }
}

proof fn lemma_similar_pairs(h: Seq<RecordView>, n: int, window: u64, pair: (u64, u64))
    requires
        0 <= n <= h.len(),
    ensures
        similar_pairs(h, n, window).contains(pair) <==> exists|i: int, k: int|
            0 <= i < n && i < k < h.len() && #[trigger] similar(h[i], h[k], window) && pair == (
                h[i].timestamp,
                h[k].timestamp,
            ),
    decreases n,
{
    if n > 0 {
        let before = similar_pairs(h, n - 1, window);
        let row = similar_to(h, n - 1, h.len() as int, window);
        let all = similar_pairs(h, n, window);
        lemma_similar_pairs(h, n - 1, window, pair);
        lemma_similar_to(h, n - 1, h.len() as int, window, pair);
        if all.contains(pair) {
            let x = choose|x: int| 0 <= x < all.len() && all[x] == pair;
            if x < before.len() {
                assert(before[x] == pair);
                assert(before.contains(pair));
            } else {
                assert(row[x - before.len()] == pair);
                assert(row.contains(pair));
            }
        }
        if before.contains(pair) {
            let x = choose|x: int| 0 <= x < before.len() && before[x] == pair;
            assert(all[x] == pair);
        }
        if row.contains(pair) {
            let x = choose|x: int| 0 <= x < row.len() && row[x] == pair;
            assert(all[before.len() + x] == pair);
        }
    }
}

/// The pairs that are reported as duplicates are exactly the times of those pairs of records that
/// share task type and engineer and lie within the window.
pub proof fn duplicates_are_the_similar_pairs(h: Seq<RecordView>, window: u64, pair: (u64, u64))
    ensures
        similar_pairs(h, h.len() as int, window).contains(pair) <==> exists|i: int, k: int|
            0 <= i < k < h.len() && #[trigger] similar(h[i], h[k], window) && pair == (
                h[i].timestamp,
                h[k].timestamp,
            ),
{
    lemma_similar_pairs(h, h.len() as int, window, pair);
}

/// Consecutive pages put together are one larger page.
pub proof fn pages_join<T>(s: Seq<T>, offset: nat, first: nat, second: nat)
    ensures
        page(s, offset, first) + page(s, offset + first, second) == page(s, offset, first + second),
        page(s, 0, s.len()) == s,
        page(s, offset, first).len() <= first,
{
    assert(page(s, offset, first) + page(s, offset + first, second) =~= page(
        s,
        offset,
        first + second,
    ));
    assert(page(s, 0, s.len()) =~= s);
}

/// A task that is scheduled is found under its number, and cannot be scheduled again.
pub proof fn tasks_are_scheduled_once(
    s: State,
    call: CallView,
    later: CallView,
    owner: Address,
    asset_id: u64,
    task_id: u64,
    task_type: Symbol,
    interval_type: Symbol,
    interval_value: u64,
    other_value: u64,
)
    requires
        schedule_recurring_task_result(
            s,
            call,
            owner,
            asset_id,
            task_id,
            task_type,
            interval_type,
            interval_value,
        ) is Ok,
    ensures
        ({
            let t = schedule_recurring_task_result(
                s,
                call,
                owner,
                asset_id,
                task_id,
                task_type,
                interval_type,
                interval_value,
            )->Ok_0;
            &&& task_place(t.asset(asset_id).tasks, task_id) == Some(
                s.asset(asset_id).tasks.len() as int,
            )
            &&& t.asset(asset_id).tasks.last().next_due > call.now || call.now == u64::MAX
            &&& schedule_recurring_task_result(
                t,
                later,
                owner,
                asset_id,
                task_id,
                task_type,
                interval_type,
                other_value,
            ) is Err
        }),
{
    let t = schedule_recurring_task_result(
        s,
        call,
        owner,
        asset_id,
        task_id,
        task_type,
        interval_type,
        interval_value,
    )->Ok_0;
    assert(t.asset(asset_id).tasks.drop_last() =~= s.asset(asset_id).tasks);
}

/// A compliance standard is told as it was registered, and is registered once.
pub proof fn standards_are_registered_once(
    s: State,
    call: CallView,
    later: CallView,
    admin: Address,
    asset_type: Symbol,
    hash: Seq<u8>,
    other_hash: Seq<u8>,
)
    requires
        register_standard_result(s, call, admin, asset_type, hash) is Ok,
    ensures
        ({
            let t = register_standard_result(s, call, admin, asset_type, hash)->Ok_0;
            &&& t.standards.contains_key(asset_type)
            &&& t.standards[asset_type] == hash
            &&& register_standard_result(t, later, admin, asset_type, other_hash) is Err
        }),
{
}

/// Frequency weights are told as they were given, and acceptable weights can be read from them.
pub proof fn weights_are_stored_as_given(
    s: State,
    call: CallView,
    admin: Address,
    asset_type: Symbol,
    other_type: Symbol,
    json: Seq<u8>,
)
    requires
        update_scoring_weights_result(s, call, admin, asset_type, json) is Ok,
        other_type != asset_type,
    ensures
        ({
            let t = update_scoring_weights_result(s, call, admin, asset_type, json)->Ok_0;
            &&& t.scoring_weights.contains_key(asset_type)
            &&& t.scoring_weights[asset_type] == json
            &&& weights_in(json) matches Some(w) && w.wf()
            &&& t.scoring_weights.contains_key(other_type) == s.scoring_weights.contains_key(
                other_type,
            )
            &&& t.scoring_weights[other_type] == s.scoring_weights[other_type]
        }),
{
}

} // verus!
