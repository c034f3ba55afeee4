//! Laws of answers: what a function may return for its arguments, told in terms of what was given
//! and what is kept.

use vstd::prelude::*;

use crate::call::Call;
use crate::errors::{Abort, LifecycleError};
use crate::events::EventView;
use crate::history::{overdue, prediction, task_types, try_predict_next_service};
use crate::host::host_bytes;
use crate::names::{Address, Symbol};
use crate::scores::{
    current_score, decay_value, is_last_service, numbered_score, registered, score_given,
    stored_score,
};
use crate::scoring::{
    compute_recency, compute_reward, elapsed_intervals, faded, intervals, recency, reward,
};
use crate::state::{Lifecycle, State};
use crate::types::{records, Asset, AssetView, Config, HealthSnapshot, MaintenanceRecord};
use crate::validation::{
    require_length, require_non_empty, require_positive_u32, require_positive_u64,
    require_within_bounds, Rule, ValidationError,
};

verus! {

/// A number is accepted exactly if it is positive, or lies within its bounds; the report names the
/// rule and the field.
pub proof fn numbers_are_judged_by_their_size(
    value: u64,
    small: u32,
    min: u64,
    max: u64,
    field: &str,
    r: Result<(), ValidationError>,
)
    ensures
        call_ensures(require_positive_u64, (value, field), r) ==> {
            &&& r is Ok <==> value > 0
            &&& r matches Err(e) ==> e.rule == Rule::Positive && e.field@ == field@
        },
        call_ensures(require_positive_u32, (small, field), r) ==> {
            &&& r is Ok <==> small > 0
            &&& r matches Err(e) ==> e.rule == Rule::Positive && e.field@ == field@
        },
        call_ensures(require_within_bounds, (value, min, max, field), r) ==> {
            &&& r is Ok <==> value >= min && value <= max
            &&& r matches Err(e) ==> e.rule == Rule::WithinBounds && e.field@ == field@
        },
{
}

/// An input is accepted exactly if it is not empty, and where it has a maximum does not exceed it.
pub proof fn lengths_are_judged(
    is_empty: bool,
    len: usize,
    max: u32,
    field: &str,
    r: Result<(), ValidationError>,
)
    ensures
        call_ensures(require_non_empty, (is_empty, field), r) ==> {
            &&& r is Ok <==> !is_empty
            &&& r matches Err(e) ==> e.rule == Rule::NonEmpty && e.field@ == field@
        },
        call_ensures(require_length, (len, field, max), r) ==> {
            &&& r is Ok <==> 1 <= len <= max
            &&& r matches Err(e) ==> e.field@ == field@
            &&& r matches Err(e) ==> (e.rule == Rule::NonEmpty <==> len == 0)
            &&& r matches Err(e) ==> (e.rule == Rule::MaxLength <==> len > 0)
        },
{
}

/// The message of a refused input names the field, and says in words what the rule asks.
pub proof fn messages_say_what_is_wrong(e: ValidationError, s: String)
    requires
        call_ensures(ValidationError::message, (&e,), s),
    ensures
        e.rule == Rule::NonEmpty ==> s@ == "validation: "@ + e.field@ + " "@
            + "must not be empty"@,
        e.rule == Rule::MaxLength ==> s@ == "validation: "@ + e.field@ + " "@
            + "exceeds maximum length"@,
        e.rule == Rule::Positive ==> s@ == "validation: "@ + e.field@ + " "@
            + "must be positive"@,
        e.rule == Rule::WithinBounds ==> s@ == "validation: "@ + e.field@ + " "@
            + "must be within bounds"@,
{
}

/// A loan is refused for a threshold of 0 and for an amount that is not positive; else it is had
/// exactly if the current score of the asset reaches the threshold that is set.
pub proof fn loans_are_granted_if(
    l: Lifecycle,
    call: Call,
    asset_id: u64,
    threshold: u32,
    amount: i128,
    r: Result<bool, Abort>,
)
    requires
        l@.wf(),
        call_ensures(Lifecycle::request_loan, (&l, &call, asset_id, threshold, amount), r),
    ensures
        threshold == 0 || amount <= 0 ==> r == Err::<bool, Abort>(
            Abort::Error(LifecycleError::InvalidConfig),
        ),
        threshold > 0 && amount > 0 && l@.config is None ==> r == Err::<bool, Abort>(
            Abort::Error(LifecycleError::NotInitialized),
        ),
        threshold > 0 && amount > 0 && l@.config is Some && !call@.assets.contains_key(asset_id)
            ==> r == Err::<bool, Abort>(Abort::Error(LifecycleError::AssetNotFound)),
        threshold > 0 && amount > 0 && l@.config is Some && call@.assets.contains_key(asset_id)
            ==> r == Ok::<bool, Abort>(
            current_score(l@, call@.assets[asset_id], call@.now, asset_id)
                >= l@.config->0.eligibility_threshold,
        ),
{
}

/// The scores that are told, and when there is none to tell: before the contract is initialized,
/// and for an asset that is not registered.
pub proof fn scores_are_told_of_registered_assets(
    l: Lifecycle,
    call: Call,
    asset_id: u64,
    given: u32,
    score: Result<u32, Abort>,
    b: Result<bool, Abort>,
    value: Result<(u64, u64), Abort>,
    maybe: Result<Option<u32>, Abort>,
    n: u32,
)
    requires
        l@.wf(),
    ensures
        ({
            let (s, c) = (l@, call@);
            let (known, info) = (c.assets.contains_key(asset_id), c.assets[asset_id]);
            let now_score = current_score(s, info, c.now, asset_id);
            let v = s.asset(asset_id).valuations;
            &&& call_ensures(Lifecycle::get_collateral_score, (&l, &call, asset_id), score) ==> {
                &&& s.config is None ==> score == Err::<u32, Abort>(
                    Abort::Error(LifecycleError::NotInitialized),
                )
                &&& s.config is Some && !known ==> score == Err::<u32, Abort>(
                    Abort::Error(LifecycleError::AssetNotFound),
                )
                &&& s.config is Some && known ==> score == Ok::<u32, Abort>(now_score)
            }
            &&& call_ensures(
                Lifecycle::collateral_score_given,
                (&l, &call, asset_id, given),
                score,
            ) && s.config is Some && known ==> score == Ok::<u32, Abort>(
                score_given(s, info, c.now, asset_id, given),
            )
            &&& call_ensures(Lifecycle::is_collateral_eligible, (&l, &call, asset_id), b) ==> {
                &&& s.config is None || !known ==> b is Err
                &&& s.config is Some && known ==> b == Ok::<bool, Abort>(
                    now_score >= s.config->0.eligibility_threshold,
                )
            }
            &&& call_ensures(Lifecycle::get_collateral_valuation, (&l, &call, asset_id), value)
                ==> {
                &&& s.config is None || !known ==> value is Err
                &&& s.config is Some && known ==> value is Ok
                &&& value is Ok && v.len() == 0 ==> value->Ok_0.0 == now_score
                    && value->Ok_0.1 == c.now
                &&& value is Ok && v.len() > 0 ==> value->Ok_0.0 == v[v.len() - 1].1
                    && value->Ok_0.1 == v[v.len() - 1].0
            }
            &&& call_ensures(Lifecycle::get_collateral_score_opt, (&l, &call, asset_id), maybe)
                ==> {
                &&& s.config is None ==> maybe is Err
                &&& s.config is Some && !known ==> maybe == Ok::<Option<u32>, Abort>(None)
                &&& s.config is Some && known ==> maybe == Ok::<Option<u32>, Abort>(
                    Some(stored_score(s, info, c.now, asset_id)),
                )
            }
            &&& call_ensures(Lifecycle::compute_decay, (&l, &call, asset_id), n) ==> n == recency(
                s.asset(asset_id),
                c.now,
            )
        }),
{
}

/// The scores and eligibilities of several assets: the first are told of the registered ones, the
/// second only where all are registered.
pub proof fn lists_of_scores_are_told(
    l: Lifecycle,
    call: Call,
    ids: Vec<u64>,
    scores: Result<Vec<(u64, u32)>, Abort>,
    eligible: Result<Vec<bool>, Abort>,
    k: int,
)
    requires
        l@.wf(),
    ensures
        call_ensures(Lifecycle::get_collateral_score_batch, (&l, &call, &ids), scores) ==> {
            &&& scores is Ok <==> l@.config is Some
            &&& scores is Ok && 0 <= k < scores->Ok_0@.len() ==> call@.assets.contains_key(
                scores->Ok_0@[k].0,
            ) && scores->Ok_0@[k].1 == stored_score(
                l@,
                call@.assets[scores->Ok_0@[k].0],
                call@.now,
                scores->Ok_0@[k].0,
            )
        },
        call_ensures(Lifecycle::batch_is_collateral_eligible, (&l, &call, &ids), eligible) ==> {
            &&& l@.config is None ==> eligible is Err
            &&& 0 <= k < ids@.len() && !call@.assets.contains_key(ids@[k]) ==> eligible is Err
            &&& l@.config is Some && (forall|i: int|
                0 <= i < ids@.len() ==> call@.assets.contains_key(#[trigger] ids@[i]))
                ==> eligible is Ok && eligible->Ok_0@.len() == ids@.len()
            &&& eligible is Ok && 0 <= k < ids@.len() ==> eligible->Ok_0@[k] == (current_score(
                l@,
                call@.assets[ids@[k]],
                call@.now,
                ids@[k],
            ) >= l@.config->0.eligibility_threshold)
        },
{
    let p = registered(call@);
    if scores is Ok && 0 <= k < scores->Ok_0@.len() {
        broadcast use vstd::seq_lib::group_filter_ensures;
        let f = ids@.filter(p);
        if scores->Ok_0@ == f.map_values(numbered_score(l@, call@)) {
            assert(f.contains(f[k]));
            assert(p(f[k]));
        }
    }
}

/// Bringing a score up to date tells it; while the contract is paused it does neither.
pub proof fn decay_tells_the_score(
    l: &mut Lifecycle,
    call: &Call,
    asset_id: u64,
    r: Result<u32, Abort>,
)
    requires
        old(l)@.wf(),
        call_ensures(Lifecycle::decay_score, (l, call, asset_id), r),
    ensures
        old(l)@.paused ==> r == Err::<u32, Abort>(Abort::Error(LifecycleError::Paused)),
        r is Err ==> final(l)@ == old(l)@,
        !old(l)@.paused && old(l)@.config is Some ==> r is Ok,
        r is Ok && !old(l)@.asset(asset_id).frozen ==> r->Ok_0 <= old(l)@.asset(asset_id).score + 1,
        r is Ok ==> r->Ok_0 == decay_value(old(l)@, call@, asset_id),
        r is Ok && old(l)@.asset(asset_id).frozen ==> r->Ok_0 == 0 && final(l)@ == old(l)@,
{
}

/// A snapshot tells the time of the call, the faded score, the number of records and the latest
/// time of a record, and is added behind the earlier ones; nothing else changes.
pub proof fn snapshots_tell_the_condition(
    l: &mut Lifecycle,
    call: &Call,
    asset_id: u64,
    r: Result<HealthSnapshot, Abort>,
)
    requires
        old(l)@.wf(),
        call_ensures(Lifecycle::take_health_snapshot, (l, call, asset_id), r),
    ensures
        r is Ok <==> old(l)@.config is Some && call@.assets.contains_key(asset_id),
        r is Err ==> final(l)@ == old(l)@,
        r is Ok ==> {
            let (s, t, x) = (old(l)@, final(l)@, r->Ok_0);
            let (a, b) = (s.asset(asset_id), t.asset(asset_id));
            &&& x.timestamp == call@.now
            &&& x.score == faded(a, s.config->0, call@.now)
            &&& x.maintenance_count == a.history.len()
            &&& is_last_service(a.history, x.last_service_date)
            &&& t == (State { assets: s.assets.insert(asset_id, b), ..s })
            &&& b == (AssetView { snapshots: a.snapshots.push(x), ..a })
        },
{
}

/// Alerts are announced as they are told, and only where there are any.
pub proof fn alerts_are_announced(
    l: &mut Lifecycle,
    call: &Call,
    asset_id: u64,
    r: Vec<(Symbol, u64)>,
)
    requires
        old(l)@.wf(),
        call_ensures(Lifecycle::get_maintenance_alerts, (l, call, asset_id), r),
    ensures
        r@ == overdue(
            old(l)@.asset(asset_id).history,
            task_types(old(l)@.asset(asset_id).history),
            call@.now,
        ),
        r@.len() == 0 ==> final(l)@ == old(l)@,
        r@.len() > 0 ==> final(l)@ == (State {
            events: old(l)@.events.push(EventView::Alerts { asset_id, alerts: r@ }),
            ..old(l)@
        }),
{
}

/// The history of an asset is told whole or by the page, of registered assets only.
pub proof fn histories_are_told(
    l: Lifecycle,
    call: Call,
    asset_id: u64,
    offset: u32,
    limit: u32,
    r: Result<Vec<MaintenanceRecord>, Abort>,
    maybe: Result<Option<Vec<MaintenanceRecord>>, Abort>,
    time: Result<Option<u64>, Abort>,
    k: int,
)
    ensures
        ({
            let (s, c) = (l@, call@);
            let h = s.asset(asset_id).history;
            let told = s.asset_registry is Some && c.assets.contains_key(asset_id);
            &&& call_ensures(Lifecycle::get_maintenance_history, (&l, &call, asset_id), r) ==> {
                &&& r is Ok <==> told
                &&& r is Ok ==> r->Ok_0@.len() == h.len()
                &&& r is Ok && 0 <= k < h.len() ==> records(r->Ok_0@)[k] == h[k]
            }
            &&& call_ensures(
                Lifecycle::get_maintenance_history_page,
                (&l, &call, asset_id, offset, limit),
                r,
            ) ==> {
                &&& r is Ok <==> told
                &&& r is Ok && offset >= h.len() ==> r->Ok_0@.len() == 0
                &&& r is Ok && offset < h.len() && 0 <= k < limit && offset + k < h.len()
                    ==> records(r->Ok_0@)[k] == h[offset + k]
            }
            &&& call_ensures(Lifecycle::get_maintenance_history_opt, (&l, &call, asset_id), maybe)
                ==> {
                &&& maybe is Err <==> s.asset_registry is None
                &&& maybe is Ok ==> (maybe->Ok_0 is Some <==> told)
                &&& maybe is Ok && told ==> records(maybe->Ok_0->0@) == h
            }
            &&& call_ensures(Lifecycle::get_last_service_timestamp, (&l, &call, asset_id), time)
                ==> {
                &&& time is Ok <==> told
                &&& time is Ok ==> time->Ok_0 == s.asset(asset_id).last_service
            }
        }),
{
    if r is Ok {
        assert(records(r->Ok_0@).len() == r->Ok_0@.len());
    }
}

/// Settings, weights, registries and the rate are told as they are kept; before the contract is
/// initialized there are none.
pub proof fn settings_are_told(
    l: Lifecycle,
    call: Call,
    asset_type: Symbol,
    engineer: Address,
    c: Result<Config, Abort>,
    a: Result<Address, Abort>,
    b: Result<bool, Abort>,
    paused: bool,
    text: Vec<u8>,
)
    ensures
        call_ensures(Lifecycle::get_config, (&l,), c) ==> {
            &&& c is Ok <==> l@.config is Some
            &&& c is Ok ==> Some(c->Ok_0@) == l@.config
        },
        call_ensures(Lifecycle::get_asset_registry, (&l,), a) ==> {
            &&& a is Ok <==> l@.asset_registry is Some
            &&& a is Ok ==> Some(a->Ok_0) == l@.asset_registry
        },
        call_ensures(Lifecycle::get_engineer_registry, (&l,), a) ==> {
            &&& a is Ok <==> l@.engineer_registry is Some
            &&& a is Ok ==> Some(a->Ok_0) == l@.engineer_registry
        },
        call_ensures(Lifecycle::is_paused, (&l,), paused) ==> paused == l@.paused,
        call_ensures(Lifecycle::get_scoring_weights, (&l, asset_type), text) ==> {
            &&& l@.scoring_weights.contains_key(asset_type) ==> text@
                == l@.scoring_weights[asset_type]
            &&& !l@.scoring_weights.contains_key(asset_type) ==> text@.len() == 0
        },
        call_ensures(Lifecycle::get_maintenance_standard, (&l, asset_type), text) ==> {
            &&& l@.standards.contains_key(asset_type) ==> text@ == l@.standards[asset_type]
            &&& !l@.standards.contains_key(asset_type) ==> text@.len() == 0
        },
        call_ensures(Lifecycle::check_engineer_submission_rate, (&l, &call, engineer), b) ==> {
            let w = l@.engineer(engineer).window;
            let limit = l@.config->0.max_submissions_per_hour;
            &&& b is Ok <==> l@.config is Some
            &&& b is Ok ==> b->Ok_0 == (limit == 0 || w is None || call@.now >= (w->0).0 + 3_600
                || (w->0).1 < limit)
        },
{
}

/// Maintenance is compliant exactly if the asset is registered, its type has a standard, and the
/// proof is that standard.
pub proof fn compliance_is_judged_by_the_standard(
    l: Lifecycle,
    call: Call,
    asset_id: u64,
    task_type: Symbol,
    proof_hash: soroban_sdk::Bytes,
    r: Result<bool, Abort>,
)
    requires
        call_ensures(
            Lifecycle::validate_maintenance_compliance,
            (&l, &call, asset_id, task_type, &proof_hash),
            r,
        ),
    ensures
        r is Ok <==> l@.asset_registry is Some,
        r is Ok && r->Ok_0 ==> call@.assets.contains_key(asset_id) && l@.standards.contains_key(
            call@.assets[asset_id].asset_type,
        ) && l@.standards[call@.assets[asset_id].asset_type] == host_bytes(proof_hash),
        r is Ok && call@.assets.contains_key(asset_id) && l@.standards.contains_key(
            call@.assets[asset_id].asset_type,
        ) && l@.standards[call@.assets[asset_id].asset_type] == host_bytes(proof_hash)
            ==> r->Ok_0,
{
}

/// The functions that compute a score give what the formulas of scores say.
pub proof fn scores_are_computed_as_owed(
    a: Asset,
    c: Config,
    now: u64,
    t: Symbol,
    reputation: u32,
    history: Vec<MaintenanceRecord>,
    n: u64,
    r: u32,
    due: Result<u64, LifecycleError>,
)
    requires
        c@.wf(),
    ensures
        call_ensures(compute_recency, (&a, now), r) ==> r == recency(a@, now),
        call_ensures(elapsed_intervals, (&a, &c, now), n) ==> n == intervals(a@, c@, now),
        call_ensures(compute_reward, (&c, t, reputation), r) ==> r == reward(c@, t, reputation),
        call_ensures(try_predict_next_service, (&history, t), due) ==> due == prediction(
            records(history@),
            t,
        ),
{
}

/// A record, seen as a mathematical value, holds what the record holds.
pub proof fn records_hold_what_was_recorded(list: Seq<MaintenanceRecord>, i: int)
    requires
        0 <= i < list.len(),
    ensures
        records(list).len() == list.len(),
        records(list)[i].asset_id == list[i].asset_id,
        records(list)[i].task_type == list[i].task_type,
        records(list)[i].priority == list[i].priority,
        records(list)[i].notes == list[i].notes@,
        records(list)[i].engineer == list[i].engineer,
        records(list)[i].timestamp == list[i].timestamp,
        records(list)[i].cost == list[i].cost,
{
}

/// A new contract has no settings, is not paused, and keeps nothing.
pub proof fn new_contracts_are_empty(l: Lifecycle, id: u64, who: Address, name: Symbol)
    requires
        call_ensures(Lifecycle::new, (), l),
    ensures
        l@.config is None && l@.asset_registry is None && l@.engineer_registry is None,
        !l@.paused && l@.pending_admin is None && l@.pending_upgrade is None,
        !l@.assets.contains_key(id) && !l@.engineers.contains_key(who),
        !l@.timelocks.contains_key(name) && !l@.scoring_weights.contains_key(name),
        !l@.standards.contains_key(name) && l@.events.len() == 0,
{
}

} // verus!
