//! Laws of effects: when an operation is accepted, and what it leaves behind, field by field.

use vstd::prelude::*;
use vstd::string::StringSliceAdditionalSpecFns;

use crate::call::{CallView, CredentialStatus};
use crate::engineers::{forgets, lemma_forgets_wf, within_rate};
use crate::errors::{Abort, LifecycleError};
use crate::events::{Action, EventView, Notice};
use crate::formula_laws::lemma_filter_places;
use crate::governance::{
    accept_admin_result, cosigners, execute_upgrade_result, execution, first_unsigned, pause_result,
    propose_admin_result, propose_config_update_result, propose_pause_result,
    propose_unpause_result, propose_upgrade_result, quorum_check, set_admin_quorum_result,
    unpause_result, ADM_XFER, PAUSE, UNPAUSE, UPGRADE,
};
use crate::history::engineers;
use crate::lists::{distinct, keep_last, lemma_distinct, other_than, page};
use crate::maintenance::{batch_submitted, contents_check, submitted};
use crate::names::{short_symbol, Address, Symbol};
use crate::ownership::{
    authorize_engineer_result, clear_engineer_authorizations_result, decommission_notify_result,
    execute_revoke_engineer_auth_result, propose_revoke_engineer_auth_result,
    record_transfer_result, transfer_notify_result,
};
use crate::record_laws::pruning_updates_the_engineers;
use crate::recurring::{
    auto_create_recurring_task_result, schedule_recurring_task_result, task_place,
};
use crate::scores::{
    decay_check, eligibilities, force_decay_result, numbered_score, registered, reset_score_result,
    score_check, stored_score,
};
use crate::settings::{
    initialize_result, set_eligibility_threshold_result, set_max_notes_length_result,
    set_max_submissions_per_hour_result, set_task_weight_result, update_asset_registry_result,
    update_decay_config_result, update_eligibility_threshold_result,
    update_engineer_registry_result, update_max_history_result, update_max_notes_length_result,
    update_score_increment_result, update_scoring_weights_result,
};
use crate::scoring::known_task;
use crate::state::State;
use crate::types::{AssetView, BatchView, ConfigView, Priority, RecurringTask, WasmHash};
use crate::upkeep::{
    mark_duplicate_result, prune_asset_history_result, purge_asset_data_result,
    register_standard_result,
};
use crate::weights::weights_in;

verus! {

/// A submission is accepted exactly if the contract is open and initialized, the engineer has
/// signed, the task type is one of the eleven standard ones or has a weight, the notes are neither
/// empty nor too long, the asset is registered and in service, and the engineer has a credential
/// that is valid or in its grace period, the owner's authorization, and the specialization.
pub proof fn submissions_are_accepted_if(
    s: State,
    call: CallView,
    asset_id: u64,
    task_type: Symbol,
    priority: Priority,
    notes: Seq<u8>,
    engineer: Address,
    cost: Option<u64>,
)
    ensures
        submitted(s, call, asset_id, task_type, priority, notes, engineer, cost) is Ok <==> {
            &&& !s.paused
            &&& call.signers.contains(engineer)
            &&& s.config is Some
            &&& s.config->0.task_weights.contains_key(task_type) || task_type.tail == 0 && (
            task_type.head == 0x4f494c5f434847 || task_type.head == 0x4c554245 || task_type.head
                == 0x494e5350454354 || task_type.head == 0x46494c544552 || task_type.head
                == 0x454e47494e45 || task_type.head == 0x4f5645524841554c || task_type.head
                == 0x52454255494c44 || task_type.head == 0x42454152494e47 || task_type.head
                == 0x434f4f4c414e54 || task_type.head == 0x4655454c || task_type.head
                == 0x4d41494e54)
            &&& 1 <= notes.len() <= s.config->0.max_notes_length
            &&& s.asset_registry is Some
            &&& call.assets.contains_key(asset_id)
            &&& !call.assets[asset_id].decommissioned
            &&& s.engineer_registry is Some
            &&& call.engineers.contains_key(engineer)
            &&& call.engineers[engineer].status == CredentialStatus::Valid
                || call.engineers[engineer].status == CredentialStatus::GracePeriod
            &&& s.assets.contains_key(asset_id)
            &&& s.assets[asset_id].authorized.contains(engineer)
            &&& call.engineers[engineer].specializations.contains(
                call.assets[asset_id].asset_type,
            )
        },
{
}

/// The first obstacle decides how a submission is refused.
pub proof fn submissions_are_refused_for(
    s: State,
    call: CallView,
    asset_id: u64,
    task_type: Symbol,
    priority: Priority,
    notes: Seq<u8>,
    engineer: Address,
    cost: Option<u64>,
)
    requires
        s.wf(),
    ensures
        ({
            let r = submitted(s, call, asset_id, task_type, priority, notes, engineer, cost);
            let refused = |e: LifecycleError| r == Err::<State, Abort>(Abort::Error(e));
            let ready = !s.paused && call.signers.contains(engineer) && s.config is Some;
            let c = s.config->0;
            let worded = 1 <= notes.len() <= c.max_notes_length;
            &&& s.paused ==> refused(LifecycleError::Paused)
            &&& !s.paused && !call.signers.contains(engineer) ==> r == Err::<State, Abort>(
                Abort::MissingAuth(engineer),
            )
            &&& !s.paused && call.signers.contains(engineer) && s.config is None ==> refused(
                LifecycleError::NotInitialized,
            )
            &&& ready && refused(LifecycleError::InvalidTaskType) ==> !c.task_weights.contains_key(
                task_type,
            )
            &&& ready && c.task_weights.contains_key(task_type) ==> {
                &&& !worded ==> refused(LifecycleError::NotesTooLong)
                &&& worded && !call.assets.contains_key(asset_id) ==> refused(
                    LifecycleError::AssetNotFound,
                )
                &&& worded && call.assets.contains_key(asset_id) ==> {
                    let out = call.assets[asset_id].decommissioned;
                    let known = call.engineers.contains_key(engineer);
                    let e = call.engineers[engineer];
                    let in_force = known && (e.status == CredentialStatus::Valid || e.status
                        == CredentialStatus::GracePeriod);
                    let allowed = s.assets.contains_key(asset_id)
                        && s.assets[asset_id].authorized.contains(engineer);
                    &&& out ==> refused(LifecycleError::AssetDecommissioned)
                    &&& !out && !in_force ==> refused(LifecycleError::UnauthorizedEngineer)
                    &&& !out && in_force && !allowed ==> refused(
                        LifecycleError::EngineerNotAuthorized,
                    )
                    &&& !out && in_force && allowed && !e.specializations.contains(
                        call.assets[asset_id].asset_type,
                    ) ==> refused(LifecycleError::SpecializationMismatch)
                }
            }
        }),
{
}

/// What an accepted submission leaves: the record, field by field, behind the records that were
/// there, of which the oldest are gone where there were as many as fit; and its announcements,
/// behind those that were made before.
pub proof fn submissions_leave_their_record(
    s: State,
    call: CallView,
    asset_id: u64,
    task_type: Symbol,
    priority: Priority,
    notes: Seq<u8>,
    engineer: Address,
    cost: Option<u64>,
)
    requires
        s.wf(),
        submitted(s, call, asset_id, task_type, priority, notes, engineer, cost) is Ok,
    ensures
        ({
            let t = submitted(s, call, asset_id, task_type, priority, notes, engineer, cost)->Ok_0;
            let max = s.config->0.max_history as int;
            let (h, k) = (s.asset(asset_id).history, t.assets[asset_id].history);
            let gone = if h.len() >= max {
                h.len() - max + 1
            } else {
                0
            };
            let r = k[k.len() - 1];
            &&& k.len() == h.len() - gone + 1
            &&& forall|i: int| 0 <= i < k.len() - 1 ==> #[trigger] k[i] == h[i + gone]
            &&& r.asset_id == asset_id
            &&& r.task_type == task_type
            &&& r.priority == priority
            &&& r.notes == notes
            &&& r.engineer == engineer
            &&& r.timestamp == call.now
            &&& r.cost == cost
            &&& forall|i: int|
                0 <= i < k.len() - 1 ==> #[trigger] t.assets[asset_id].credits[i] == s.asset(
                    asset_id,
                ).credits[i + gone]
            &&& t.assets[asset_id].last_update == Some(call.now)
            &&& t.assets[asset_id].last_service == Some(call.now)
            &&& t.assets[asset_id].transfers == s.asset(asset_id).transfers
            &&& t.assets[asset_id].tasks == s.asset(asset_id).tasks
            &&& t.assets[asset_id].snapshots == s.asset(asset_id).snapshots
            &&& t.assets[asset_id].duplicates == s.asset(asset_id).duplicates
            &&& t.assets[asset_id].revocations == s.asset(asset_id).revocations
        }),
{
    let t = submitted(s, call, asset_id, task_type, priority, notes, engineer, cost)->Ok_0;
    let max = s.config->0.max_history as int;
    let (a, b) = (s.asset(asset_id), t.assets[asset_id]);
    let gone = if a.history.len() >= max {
        a.history.len() - max + 1
    } else {
        0
    };
    assert(a.wf());
    assert forall|i: int| 0 <= i < b.history.len() - 1 implies #[trigger] b.credits[i]
        == a.credits[i + gone] by {}
}

/// The announcements of an accepted submission: that records were dropped and how many, that the
/// rate was exceeded, and the submission itself, behind what was announced before.
pub proof fn submissions_are_announced(
    s: State,
    call: CallView,
    asset_id: u64,
    task_type: Symbol,
    priority: Priority,
    notes: Seq<u8>,
    engineer: Address,
    cost: Option<u64>,
    counted: int,
)
    requires
        s.wf(),
        submitted(s, call, asset_id, task_type, priority, notes, engineer, cost) is Ok,
        counted == match s.engineer(engineer).window {
            Some(w) => if call.now >= w.0 + 3_600 {
                0
            } else {
                w.1 as int
            },
            None => 0,
        },
    ensures
        ({
            let t = submitted(s, call, asset_id, task_type, priority, notes, engineer, cost)->Ok_0;
            let c = s.config->0;
            let (n, m) = (s.events.len() as int, t.events.len() as int);
            let full = s.asset(asset_id).history.len() >= c.max_history;
            let over = c.max_submissions_per_hour > 0 && counted >= c.max_submissions_per_hour;
            let (x, y) = (
                if full {
                    1int
                } else {
                    0
                },
                if over {
                    1int
                } else {
                    0
                },
            );
            &&& m == n + x + y + 1
            &&& forall|i: int| 0 <= i < n ==> #[trigger] t.events[i] == s.events[i]
            &&& full ==> t.events[n] == EventView::Plain(
                Notice::HistoryTrimmed {
                    asset_id,
                    count: (s.asset(asset_id).history.len() - c.max_history + 1) as u32,
                },
            )
            &&& over ==> t.events[n + x] == EventView::Plain(
                Notice::RateExceeded {
                    engineer,
                    asset_id,
                    limit: c.max_submissions_per_hour,
                    timestamp: call.now,
                },
            )
            &&& t.events[m - 1] == EventView::Plain(
                Notice::Maintained { asset_id, engineer, task_type, timestamp: call.now },
            )
        }),
{
}

/// What an accepted submission leaves of the engineer: a window of an hour that was open counts
/// one more, and else a new one starts; the asset is listed once, at the end where it is new, and
/// the oldest asset makes room for it where the list is full.
pub proof fn submissions_count_for_the_engineer(
    s: State,
    call: CallView,
    asset_id: u64,
    task_type: Symbol,
    priority: Priority,
    notes: Seq<u8>,
    engineer: Address,
    cost: Option<u64>,
)
    requires
        s.wf(),
        submitted(s, call, asset_id, task_type, priority, notes, engineer, cost) is Ok,
    ensures
        ({
            let t = submitted(s, call, asset_id, task_type, priority, notes, engineer, cost)->Ok_0;
            let (d, e) = (s.engineer(engineer), t.engineers[engineer]);
            let (x, y) = (d.assets, e.assets);
            let full = x.len() >= s.config->0.max_history;
            &&& t.engineers.contains_key(engineer)
            &&& match d.window {
                Some(w) => if call.now >= w.0 + 3_600 {
                    e.window == Some((call.now, 1u32))
                } else if w.1 < u32::MAX {
                    e.window == Some((w.0, (w.1 + 1) as u32))
                } else {
                    e.window == Some(w)
                },
                None => e.window == Some((call.now, 1u32)),
            }
            &&& x.contains(asset_id) ==> y == x
            &&& !x.contains(asset_id) ==> {
                &&& y.len() == if full {
                    x.len()
                } else {
                    x.len() + 1
                }
                &&& y[y.len() - 1] == asset_id
                &&& forall|i: int|
                    0 <= i < y.len() - 1 ==> #[trigger] y[i] == x[if full {
                        i + 1
                    } else {
                        i
                    }]
            }
        }),
{
}

/// What an accepted batch leaves, field by field: record `i` of the batch stands at place `i`
/// behind the records that were there.
pub proof fn batches_leave_their_records(
    s: State,
    call: CallView,
    asset_id: u64,
    list: Seq<BatchView>,
    engineer: Address,
    costs: Option<Seq<Option<u64>>>,
    i: int,
)
    requires
        s.wf(),
        batch_submitted(s, call, asset_id, list, engineer, costs) is Ok,
        0 <= i < list.len(),
    ensures
        ({
            let t = batch_submitted(s, call, asset_id, list, engineer, costs)->Ok_0;
            let (h, k) = (s.asset(asset_id).history, t.assets[asset_id].history);
            let r = k[h.len() + i];
            &&& k.len() == h.len() + list.len()
            &&& forall|j: int| 0 <= j < h.len() ==> #[trigger] k[j] == h[j]
            &&& r.asset_id == asset_id
            &&& r.task_type == list[i].task_type
            &&& r.priority == list[i].priority
            &&& r.notes == list[i].notes
            &&& r.engineer == engineer
            &&& r.timestamp == call.now
            &&& costs is None ==> r.cost is None
            &&& costs is Some ==> costs->0.len() == list.len() && r.cost == costs->0[i]
            &&& t.assets[asset_id].last_update == Some(call.now)
            &&& t.assets[asset_id].last_service == Some(call.now)
            &&& t.events.len() == s.events.len() + list.len()
            &&& forall|j: int| 0 <= j < s.events.len() ==> #[trigger] t.events[j] == s.events[j]
            &&& t.events[s.events.len() + i] == EventView::Plain(
                Notice::BatchMaintained {
                    asset_id,
                    task_type: list[i].task_type,
                    priority: list[i].priority,
                    engineer,
                    timestamp: call.now,
                },
            )
        }),
{
}

/// What an accepted batch leaves of the engineer: the asset is listed once, at the end where it is
/// new, and the oldest asset makes room for it where the list is full; the window stays.
pub proof fn batches_count_for_the_engineer(
    s: State,
    call: CallView,
    asset_id: u64,
    list: Seq<BatchView>,
    engineer: Address,
    costs: Option<Seq<Option<u64>>>,
)
    requires
        s.wf(),
        batch_submitted(s, call, asset_id, list, engineer, costs) is Ok,
    ensures
        ({
            let t = batch_submitted(s, call, asset_id, list, engineer, costs)->Ok_0;
            let (x, y) = (s.engineer(engineer).assets, t.engineers[engineer].assets);
            let full = x.len() >= s.config->0.max_history;
            &&& t.engineers.contains_key(engineer)
            &&& t.engineers[engineer].window == s.engineer(engineer).window
            &&& x.contains(asset_id) ==> y == x
            &&& !x.contains(asset_id) ==> {
                &&& y.len() == if full {
                    x.len()
                } else {
                    x.len() + 1
                }
                &&& y[y.len() - 1] == asset_id
                &&& forall|i: int|
                    0 <= i < y.len() - 1 ==> #[trigger] y[i] == x[if full {
                        i + 1
                    } else {
                        i
                    }]
            }
        }),
{
}

/// A batch whose first unacceptable record is record `i` is refused for its notes where those are
/// empty or too long, and else for its task type.
pub proof fn batches_are_refused_for_the_first_bad_record(
    s: State,
    call: CallView,
    asset_id: u64,
    list: Seq<BatchView>,
    engineer: Address,
    costs: Option<Seq<Option<u64>>>,
    i: int,
)
    requires
        s.wf(),
        !s.paused && call.signers.contains(engineer) && s.config is Some,
        0 <= i < list.len() <= 50,
        forall|j: int|
            0 <= j < i ==> 1 <= (#[trigger] list[j]).notes.len() <= s.config->0.max_notes_length
                && s.config->0.task_weights.contains_key(list[j].task_type),
        !(1 <= list[i].notes.len() <= s.config->0.max_notes_length) || !known_task(
            s.config->0,
            list[i].task_type,
        ),
    ensures
        batch_submitted(s, call, asset_id, list, engineer, costs) == Err::<State, Abort>(
            Abort::Error(
                if 1 <= list[i].notes.len() <= s.config->0.max_notes_length {
                    LifecycleError::InvalidTaskType
                } else {
                    LifecycleError::NotesTooLong
                },
            ),
        ),
{
    let c = s.config->0;
    let first = list.take(i + 1);
    assert forall|j: int| 0 <= j < list.take(i).len() implies crate::maintenance::notes_check(
        c,
        (#[trigger] list.take(i)[j]).notes,
    ) is None && crate::maintenance::task_check(c, list.take(i)[j].task_type) is None by {
        assert(list[j] == list.take(i)[j]);
    }
    lemma_sound_batch(c, list.take(i));
    assert(first.drop_last() =~= list.take(i));
    assert(first.last() == list[i]);
    lemma_refused_prefix(c, list, i + 1);
}

proof fn lemma_refused_prefix(c: ConfigView, list: Seq<BatchView>, n: int)
    requires
        0 <= n <= list.len(),
        contents_check(c, list.take(n)) is Some,
    ensures
        contents_check(c, list) == contents_check(c, list.take(n)),
    decreases list.len() - n,
{
    if n < list.len() {
        assert(list.take(n + 1).drop_last() =~= list.take(n));
        lemma_refused_prefix(c, list, n + 1);
    } else {
        assert(list.take(n) =~= list);
    }
}

/// A batch that is accepted holds 1 to 50 records with acceptable notes and known task types, fits
/// the history, has a cost for every record where it names costs, and meets what a submission has
/// to meet.
pub proof fn accepted_batches_are_sound(
    s: State,
    call: CallView,
    asset_id: u64,
    list: Seq<BatchView>,
    engineer: Address,
    costs: Option<Seq<Option<u64>>>,
    i: int,
)
    requires
        batch_submitted(s, call, asset_id, list, engineer, costs) is Ok,
        0 <= i < list.len(),
    ensures
        1 <= list.len() <= 50,
        s.asset(asset_id).history.len() + list.len() <= s.config->0.max_history,
        costs is Some ==> costs->0.len() == list.len(),
        submitted(
            s,
            call,
            asset_id,
            list[i].task_type,
            list[i].priority,
            list[i].notes,
            engineer,
            None,
        ) is Ok,
{
    lemma_sound_records(s.config->0, list, i);
}

proof fn lemma_sound_records(c: ConfigView, list: Seq<BatchView>, i: int)
    requires
        contents_check(c, list) is None,
        0 <= i < list.len(),
    ensures
        crate::maintenance::notes_check(c, list[i].notes) is None,
        crate::maintenance::task_check(c, list[i].task_type) is None,
    decreases list.len(),
{
    if i < list.len() - 1 {
        lemma_sound_records(c, list.drop_last(), i);
    }
}

proof fn lemma_sound_batch(c: ConfigView, list: Seq<BatchView>)
    requires
        forall|i: int|
            0 <= i < list.len() ==> crate::maintenance::notes_check(
                c,
                (#[trigger] list[i]).notes,
            ) is None && crate::maintenance::task_check(c, list[i].task_type) is None,
    ensures
        contents_check(c, list) is None,
    decreases list.len(),
{
    if list.len() > 0 {
        assert forall|i: int| 0 <= i < list.drop_last().len() implies crate::maintenance::notes_check(
            c,
            (#[trigger] list.drop_last()[i]).notes,
        ) is None && crate::maintenance::task_check(c, list.drop_last()[i].task_type) is None by {
            assert(list[i] == list.drop_last()[i]);
        }
        lemma_sound_batch(c, list.drop_last());
        assert(list[list.len() - 1] == list.last());
    }
}

/// A batch of 1 to 50 records, each of which would be accepted by itself, is accepted where the
/// history has room for all of them, the costs match in number and no score exceeds 32 bits; and
/// where one of those fails it is refused for that.
pub proof fn sound_batches_are_accepted(
    s: State,
    call: CallView,
    asset_id: u64,
    list: Seq<BatchView>,
    engineer: Address,
    costs: Option<Seq<Option<u64>>>,
)
    requires
        s.wf(),
        forall|i: int|
            0 <= i < list.len() ==> submitted(
                s,
                call,
                asset_id,
                (#[trigger] list[i]).task_type,
                list[i].priority,
                list[i].notes,
                engineer,
                None,
            ) is Ok,
        !s.paused && call.signers.contains(engineer) && s.config is Some,
    ensures
        ({
            let r = batch_submitted(s, call, asset_id, list, engineer, costs);
            let refused = |e: LifecycleError| r == Err::<State, Abort>(Abort::Error(e));
            let room = s.asset(asset_id).history.len() + list.len()
                <= s.config->0.max_history;
            &&& list.len() == 0 ==> r == Err::<State, Abort>(Abort::NoRecords)
            &&& list.len() > 50 ==> refused(LifecycleError::BatchTooLarge)
            &&& 1 <= list.len() <= 50 && !room ==> refused(LifecycleError::HistoryCapReached)
            &&& 1 <= list.len() <= 50 && room && costs is Some && costs->0.len() != list.len()
                ==> refused(LifecycleError::InvalidConfig)
            &&& 1 <= list.len() <= 50 && room && (costs is None || costs->0.len() == list.len())
                ==> r is Ok || refused(LifecycleError::ScoreOverflow)
        }),
{
    if list.len() > 0 {
        assert(submitted(
            s,
            call,
            asset_id,
            list[0].task_type,
            list[0].priority,
            list[0].notes,
            engineer,
            None,
        ) is Ok);
        lemma_sound_batch(s.config->0, list);
    }
}

/// A page holds the items from its offset on, up to its limit and the end of the list.
pub proof fn pages_hold_what_stands_there<T>(s: Seq<T>, offset: nat, limit: nat, k: int)
    ensures
        page(s, offset, limit).len() == if offset >= s.len() {
            0
        } else if s.len() - offset < limit {
            s.len() - offset
        } else {
            limit as int
        },
        0 <= k < page(s, offset, limit).len() ==> page(s, offset, limit)[k] == s[offset + k],
{
}

/// The last entries of a list are those that are left when the oldest are dropped.
pub proof fn last_entries_are_the_latest<T>(s: Seq<T>, max: nat, k: int)
    ensures
        keep_last(s, max).len() == if s.len() < max {
            s.len()
        } else {
            max
        },
        0 <= k < keep_last(s, max).len() ==> keep_last(s, max)[k] == s[k + s.len() - keep_last(
            s,
            max,
        ).len()],
{
}

/// A rate limit of `limit` submissions an hour is kept exactly while fewer than that have been
/// counted in a window that started less than 3600 seconds ago; zero stands for no limit.
pub proof fn rate_limits_count_an_hour(window: Option<(u64, u32)>, now: u64, limit: u32)
    ensures
        within_rate(window, now, limit) <==> limit == 0 || match window {
            Some(w) => now >= w.0 + 3_600 || w.1 < limit,
            None => true,
        },
{
}

/// With several administrators, a call passes exactly if the caller is one of them and the first
/// of the other entries of the list, as many as the threshold asks for beside the caller, have
/// signed; the first of them that has not is asked for, and where there are too few entries that
/// is reported. With a single administrator the caller has to be that one. `places` are the places
/// of the entries other than the caller.
pub proof fn quorum_asks_the_first_others(
    c: ConfigView,
    signers: Set<Address>,
    caller: Address,
    places: Seq<int>,
)
    requires
        forall|k: int|
            0 <= k < places.len() ==> 0 <= #[trigger] places[k] < c.admins.len()
                && c.admins[places[k]] != caller,
        forall|k: int, l: int| 0 <= k < l < places.len() ==> places[k] < places[l],
        forall|i: int|
            0 <= i < c.admins.len() && #[trigger] c.admins[i] != caller ==> places.contains(i),
    ensures
        ({
            let r = quorum_check(c, signers, caller);
            let single = c.admins.len() == 0 || c.admin_threshold <= 1;
            let wanted = c.admin_threshold - 1;
            &&& single ==> (r is None <==> caller == c.admin)
            &&& !single && !c.admins.contains(caller) ==> r == Some(
                Abort::Error(LifecycleError::UnauthorizedAdmin),
            )
            &&& !single && c.admins.contains(caller) ==> {
                &&& r is None <==> places.len() >= wanted && forall|k: int|
                    0 <= k < wanted ==> signers.contains(c.admins[#[trigger] places[k]])
                &&& r matches Some(Abort::MissingAuth(a)) ==> exists|k: int|
                    0 <= k < places.len() && k < wanted && c.admins[#[trigger] places[k]] == a
                        && !signers.contains(a) && forall|j: int|
                        0 <= j < k ==> signers.contains(c.admins[#[trigger] places[j]])
                &&& r == Some(Abort::Error(LifecycleError::InsufficientSigners)) ==> places.len()
                    < wanted
            }
        }),
{
    let others = c.admins.filter(other_than(caller));
    lemma_filter_places(c.admins, other_than(caller), places);
    assert(others == Seq::new(places.len(), |k: int| c.admins[places[k]]));
    let asked = cosigners(c, caller);
    let single = c.admins.len() == 0 || c.admin_threshold <= 1;
    if !single {
        lemma_first_unsigned_is_first(asked, signers);
        assert forall|k: int| 0 <= k < asked.len() implies #[trigger] asked[k]
            == c.admins[places[k]] by {}
        let r = quorum_check(c, signers, caller);
        let wanted = c.admin_threshold - 1;
        if c.admins.contains(caller) {
            if r is None {
                assert forall|k: int| 0 <= k < wanted implies signers.contains(
                    c.admins[#[trigger] places[k]],
                ) by {
                    assert(signers.contains(asked[k]));
                }
            }
            if let Some(Abort::MissingAuth(a)) = r {
                let k = choose|k: int|
                    0 <= k < asked.len() && #[trigger] asked[k] == a && !signers.contains(a)
                        && forall|j: int| 0 <= j < k ==> signers.contains(#[trigger] asked[j]);
                assert(c.admins[places[k]] == a);
                assert forall|j: int| 0 <= j < k implies signers.contains(
                    c.admins[#[trigger] places[j]],
                ) by {
                    assert(signers.contains(asked[j]));
                }
            }
        }
    }
}

proof fn lemma_first_unsigned_is_first(list: Seq<Address>, signers: Set<Address>)
    ensures
        first_unsigned(list, signers) is None <==> forall|k: int|
            0 <= k < list.len() ==> signers.contains(#[trigger] list[k]),
        first_unsigned(list, signers) matches Some(a) ==> exists|k: int|
            0 <= k < list.len() && #[trigger] list[k] == a && !signers.contains(a) && forall|j: int|
                0 <= j < k ==> signers.contains(#[trigger] list[j]),
    decreases list.len(),
{
    if list.len() > 0 {
        let b = list.drop_last();
        lemma_first_unsigned_is_first(b, signers);
        if let Some(a) = first_unsigned(b, signers) {
            let k = choose|k: int|
                0 <= k < b.len() && #[trigger] b[k] == a && !signers.contains(a) && forall|j: int|
                    0 <= j < k ==> signers.contains(#[trigger] b[j]);
            assert(list[k] == a);
            assert forall|j: int| 0 <= j < k implies signers.contains(#[trigger] list[j]) by {
                assert(signers.contains(b[j]));
            }
        } else {
            let n = list.len() - 1;
            assert forall|j: int| 0 <= j < n implies signers.contains(#[trigger] list[j]) by {
                assert(signers.contains(b[j]));
            }
            assert(list[n] == list.last());
        }
    }
}

/// The delay of every proposal is 172800 seconds: before that it is refused, and from then on its
/// operation decides.
pub proof fn proposals_wait_two_days(
    s: State,
    now: u64,
    op: Symbol,
    effect: spec_fn(State) -> Result<State, Abort>,
)
    ensures
        ({
            let r = execution(s, now, op, effect);
            let open = s.timelocks.contains_key(op) && !s.timelocks[op].executed;
            &&& !open ==> r == Err::<State, Abort>(Abort::Error(LifecycleError::ProposalNotFound))
            &&& open && now < s.timelocks[op].proposed_at + 172_800 ==> r == Err::<State, Abort>(
                Abort::Error(LifecycleError::TimelockNotExpired),
            )
            &&& open && now >= s.timelocks[op].proposed_at + 172_800 ==> r == effect(s.executed(op))
            &&& s.executed(op).timelocks[op].executed
        }),
{
}

/// A proposal is stored under its operation with the time of the call, and nothing else changes
/// but what is announced and what is pending.
pub proof fn proposals_are_dated(
    s: State,
    call: CallView,
    admin: Address,
    other: Address,
    op: Symbol,
    hash: WasmHash,
)
    ensures
        propose_config_update_result(s, call, admin, op) matches Ok(t) ==> {
            &&& t.timelocks[op].proposed_at == call.now && !t.timelocks[op].executed
            &&& t == (State { timelocks: t.timelocks, ..s })
        },
        propose_pause_result(s, call, admin) matches Ok(t) ==> {
            &&& t.timelocks[short_symbol(PAUSE)].proposed_at == call.now
            &&& !t.timelocks[short_symbol(PAUSE)].executed
            &&& t == (State { timelocks: t.timelocks, events: t.events, ..s })
        },
        propose_unpause_result(s, call, admin) matches Ok(t) ==> {
            &&& t.timelocks[short_symbol(UNPAUSE)].proposed_at == call.now
            &&& !t.timelocks[short_symbol(UNPAUSE)].executed
            &&& t == (State { timelocks: t.timelocks, events: t.events, ..s })
        },
        propose_admin_result(s, call, admin, other) matches Ok(t) ==> {
            &&& t.timelocks[short_symbol(ADM_XFER)].proposed_at == call.now
            &&& !t.timelocks[short_symbol(ADM_XFER)].executed
            &&& t.pending_admin == Some(other)
            &&& t == (State {
                timelocks: t.timelocks,
                events: t.events,
                pending_admin: t.pending_admin,
                ..s
            })
        },
        propose_upgrade_result(s, call, admin, hash) matches Ok(t) ==> {
            &&& t.timelocks[short_symbol(UPGRADE)].proposed_at == call.now
            &&& !t.timelocks[short_symbol(UPGRADE)].executed
            &&& t.pending_upgrade == Some(hash)
            &&& t == (State {
                timelocks: t.timelocks,
                events: t.events,
                pending_upgrade: t.pending_upgrade,
                ..s
            })
        },
{
}

/// Neither the administrator's role, an upgrade nor a revocation takes effect before 172800
/// seconds have passed since it was proposed.
pub proof fn delays_hold_for_all(
    s: State,
    call: CallView,
    who: Address,
    asset_id: u64,
    engineer: Address,
)
    ensures
        accept_admin_result(s, call) is Ok ==> call.now >= s.timelocks[short_symbol(
            ADM_XFER,
        )].proposed_at + 172_800 && !s.timelocks[short_symbol(ADM_XFER)].executed,
        execute_upgrade_result(s, call, who) is Ok ==> call.now >= s.timelocks[short_symbol(
            UPGRADE,
        )].proposed_at + 172_800 && !s.timelocks[short_symbol(UPGRADE)].executed,
        execute_revoke_engineer_auth_result(s, call, who, asset_id, engineer) is Ok ==> {
            let p = s.assets[asset_id].revocations[engineer];
            s.assets.contains_key(asset_id) && s.assets[asset_id].revocations.contains_key(
                engineer,
            ) && !p.executed && call.now >= p.proposed_at + 172_800
        },
{
}

/// A pause and its lifting change the pause, and nothing else but what is announced.
pub proof fn pauses_change_the_pause(s: State, call: CallView, admin: Address)
    ensures
        pause_result(s, call, admin) matches Ok(t) ==> t.paused && t == (State {
            paused: true,
            events: t.events,
            ..s
        }),
        unpause_result(s, call, admin) matches Ok(t) ==> !t.paused && t == (State {
            paused: false,
            events: t.events,
            ..s
        }),
        unpause_result(s, call, admin) is Ok <==> call.signers.contains(admin) && s.config is Some
            && s.config->0.admin == admin,
{
}

/// What the contract starts with.
pub proof fn contracts_start_with_these_settings(
    s: State,
    call: CallView,
    deployer: Address,
    asset_registry: Address,
    engineer_registry: Address,
    admin: Address,
    max_history: u32,
)
    ensures
        ({
            let r = initialize_result(
                s,
                call,
                deployer,
                asset_registry,
                engineer_registry,
                admin,
                max_history,
            );
            &&& r is Ok <==> call.signers.contains(deployer) && s.config is None && max_history
                <= 10_000 && asset_registry != engineer_registry
            &&& r matches Ok(t) ==> {
                let c = t.config->0;
                &&& t.config is Some
                &&& t.asset_registry == Some(asset_registry)
                &&& t.engineer_registry == Some(engineer_registry)
                &&& c.admin == admin && c.admins.len() == 0 && c.admin_threshold == 0
                &&& c.max_history == if max_history == 0 {
                    200
                } else {
                    max_history
                }
                &&& c.score_increment == 5 && c.decay_rate == 5 && c.decay_interval == 2_592_000
                &&& c.eligibility_threshold == 50 && c.max_notes_length == 256
                &&& c.max_submissions_per_hour == 0
                &&& forall|t: Symbol| !#[trigger] c.task_weights.contains_key(t)
            }
        }),
{
}

/// The settings that are set directly are what was set, and no other setting changes.
pub proof fn direct_settings_are_what_was_set(
    s: State,
    call: CallView,
    admin: Address,
    value: u32,
    task: Symbol,
    registry: Address,
    admins: Seq<Address>,
)
    ensures
        set_max_notes_length_result(s, call, admin, value) matches Ok(t) ==> value > 0 && t.config
            == Some(ConfigView { max_notes_length: value, ..s.config->0 }),
        set_eligibility_threshold_result(s, call, admin, value) matches Ok(t) ==> value > 0
            && t.config == Some(ConfigView { eligibility_threshold: value, ..s.config->0 }),
        set_max_submissions_per_hour_result(s, call, admin, value) matches Ok(t) ==> t.config
            == Some(ConfigView { max_submissions_per_hour: value, ..s.config->0 }),
        set_task_weight_result(s, call, admin, task, value) matches Ok(t) ==> value > 0 && t.config
            == Some(
            ConfigView {
                task_weights: s.config->0.task_weights.insert(task, value),
                ..s.config->0
            },
        ),
        update_asset_registry_result(s, call, admin, registry) matches Ok(t) ==> t == (State {
            asset_registry: Some(registry),
            events: t.events,
            ..s
        }) && s.engineer_registry != Some(registry) && registry != (Address {
            is_contract: true,
            head: 0,
            tail: 0,
        }),
        update_engineer_registry_result(s, call, admin, registry) matches Ok(t) ==> t == (State {
            engineer_registry: Some(registry),
            events: t.events,
            ..s
        }) && s.asset_registry != Some(registry) && registry != (Address {
            is_contract: true,
            head: 0,
            tail: 0,
        }),
        set_admin_quorum_result(s, call, admin, admins, value) matches Ok(t) ==> value
            <= admins.len() && t.config == Some(
            ConfigView { admins, admin_threshold: value, ..s.config->0 },
        ),
{
}

/// What a recorded transfer leaves, field by field: the records that were there, but for the
/// oldest where the history was full, then the mark of the change; the provenance; and nobody who
/// is authorized.
pub proof fn transfers_leave_their_mark(
    s: State,
    call: CallView,
    asset_id: u64,
    previous_owner: Address,
    new_owner: Address,
)
    requires
        s.wf(),
        record_transfer_result(s, call, asset_id, previous_owner, new_owner) is Ok,
    ensures
        ({
            let t = record_transfer_result(s, call, asset_id, previous_owner, new_owner)->Ok_0;
            let (a, b) = (s.asset(asset_id), t.assets[asset_id]);
            let gone = if a.history.len() >= s.config->0.max_history {
                1int
            } else {
                0
            };
            let r = b.history[b.history.len() - 1];
            let p = b.transfers[a.transfers.len() as int];
            &&& b.history.len() == a.history.len() - gone + 1
            &&& forall|i: int|
                0 <= i < b.history.len() - 1 ==> #[trigger] b.history[i] == a.history[i + gone]
            &&& r.asset_id == asset_id
            &&& r.task_type == (Symbol { head: 0x58464552, tail: 0 })
            &&& r.priority == Priority::Low
            &&& r.notes == "Ownership transferred".spec_bytes()
            &&& r.engineer == new_owner
            &&& r.timestamp == call.now
            &&& r.cost is None
            &&& b.transfers.len() == a.transfers.len() + 1
            &&& forall|i: int|
                0 <= i < a.transfers.len() ==> #[trigger] b.transfers[i] == a.transfers[i]
            &&& p.from == previous_owner && p.to == new_owner && p.timestamp == call.now
            &&& forall|e: Address| !#[trigger] b.authorized.contains(e)
            &&& b.credits.len() == b.history.len()
            &&& forall|i: int|
                0 <= i < b.history.len() - 1 ==> #[trigger] b.credits[i] == a.credits[i + gone]
            &&& b.score_history == a.score_history && b.valuations == a.valuations
            &&& b.tasks == a.tasks && b.duplicates == a.duplicates && b.frozen == a.frozen
            &&& b.score == a.score && b.last_update == a.last_update
            &&& t.events.len() == s.events.len() + 2
            &&& t.events[s.events.len() as int + 1] == EventView::Plain(
                Notice::Transferred {
                    asset_id,
                    previous_owner,
                    new_owner,
                    timestamp: call.now,
                    sentinel_index: (b.history.len() - 1) as u32,
                },
            )
        }),
{
    assert(s.asset(asset_id).wf());
}

/// A recorded transfer is accepted exactly if the contract is open and initialized and the new
/// owner has signed and owns the registered asset.
pub proof fn transfers_are_accepted_if(
    s: State,
    call: CallView,
    asset_id: u64,
    previous_owner: Address,
    new_owner: Address,
)
    ensures
        record_transfer_result(s, call, asset_id, previous_owner, new_owner) is Ok <==> !s.paused
            && call.signers.contains(new_owner) && s.config is Some && s.asset_registry is Some
            && call.assets.contains_key(asset_id) && call.assets[asset_id].owner == new_owner,
        transfer_notify_result(s, call, asset_id, new_owner) is Ok <==> s.asset_registry is Some
            && call.signers.contains(s.asset_registry->0) && s.config is Some
            && call.assets.contains_key(asset_id) && call.assets[asset_id].owner == new_owner,
        decommission_notify_result(s, call, asset_id) is Ok <==> s.asset_registry is Some
            && call.signers.contains(s.asset_registry->0) && s.config is Some,
        clear_engineer_authorizations_result(s, call, new_owner, asset_id) is Ok <==> !s.paused
            && call.signers.contains(new_owner) && s.asset_registry is Some
            && call.assets.contains_key(asset_id) && call.assets[asset_id].owner == new_owner,
{
}

/// An authorization, the proposal to take it away and its taking away change just that.
pub proof fn authorizations_change_alone(
    s: State,
    call: CallView,
    owner: Address,
    asset_id: u64,
    engineer: Address,
    other: Address,
)
    ensures
        authorize_engineer_result(s, call, owner, asset_id, engineer) is Ok <==> !s.paused
            && call.signers.contains(owner) && s.asset_registry is Some
            && call.assets.contains_key(asset_id) && call.assets[asset_id].owner == owner,
        authorize_engineer_result(s, call, owner, asset_id, engineer) matches Ok(t) ==> {
            let (a, b) = (s.asset(asset_id), t.assets[asset_id]);
            &&& b.authorized.contains(other) <==> other == engineer || a.authorized.contains(other)
            &&& b == (AssetView { authorized: b.authorized, ..a })
        },
        propose_revoke_engineer_auth_result(s, call, owner, asset_id, engineer) matches Ok(t) ==> {
            let (a, b) = (s.asset(asset_id), t.assets[asset_id]);
            &&& b.revocations[engineer].proposed_at == call.now && !b.revocations[engineer].executed
            &&& b.authorized == a.authorized
            &&& b.history == a.history && b.score == a.score
        },
        execute_revoke_engineer_auth_result(s, call, owner, asset_id, engineer) matches Ok(t) ==> {
            let (a, b) = (s.asset(asset_id), t.assets[asset_id]);
            &&& b.revocations[engineer].executed
            &&& b.authorized.contains(other) <==> other != engineer && a.authorized.contains(other)
            &&& b.history == a.history && b.score == a.score
        },
{
}

/// Scheduling adds the task, active and due after its interval, behind the others.
pub proof fn schedules_add_the_task(
    s: State,
    call: CallView,
    owner: Address,
    asset_id: u64,
    task_id: u64,
    task_type: Symbol,
    interval_type: Symbol,
    interval_value: u64,
)
    ensures
        schedule_recurring_task_result(
            s,
            call,
            owner,
            asset_id,
            task_id,
            task_type,
            interval_type,
            interval_value,
        ) matches Ok(t) ==> {
            let (a, b) = (s.asset(asset_id), t.assets[asset_id]);
            let n = a.tasks.len() as int;
            let k = b.tasks[n];
            &&& interval_value > 0 && call.assets[asset_id].owner == owner
            &&& b.tasks.len() == n + 1
            &&& forall|i: int| 0 <= i < n ==> #[trigger] b.tasks[i] == a.tasks[i]
            &&& k.task_id == task_id && k.task_type == task_type
            &&& k.interval_type == interval_type && k.interval_value == interval_value
            &&& k.is_active
            &&& k.next_due == if call.now + interval_value <= u64::MAX {
                call.now + interval_value
            } else {
                u64::MAX as int
            }
            &&& b.history == a.history && b.score == a.score
        },
{
}

/// Carrying a task out leaves a record of its type by the engineer, field by field, and makes it
/// due again after its interval; the other tasks and the score stay as they are.
pub proof fn recurring_tasks_leave_a_record(
    s: State,
    call: CallView,
    asset_id: u64,
    task_id: u64,
    engineer: Address,
    i: int,
    j: int,
)
    requires
        s.wf(),
        auto_create_recurring_task_result(s, call, asset_id, task_id, engineer) is Ok,
        0 <= i < s.asset(asset_id).tasks.len(),
        s.asset(asset_id).tasks[i].task_id == task_id,
    ensures
        ({
            let t = auto_create_recurring_task_result(s, call, asset_id, task_id, engineer)->Ok_0;
            let (a, b) = (s.asset(asset_id), t.assets[asset_id]);
            let (x, y) = (a.tasks[i], b.tasks[i]);
            let gone = if a.history.len() >= s.config->0.max_history {
                1int
            } else {
                0
            };
            let r = b.history[b.history.len() - 1];
            &&& x.is_active
            &&& b.tasks.len() == a.tasks.len()
            &&& 0 <= j < a.tasks.len() && j != i ==> b.tasks[j] == a.tasks[j]
            &&& y == (RecurringTask { next_due: y.next_due, ..x })
            &&& y.next_due == if call.now + x.interval_value <= u64::MAX {
                call.now + x.interval_value
            } else {
                u64::MAX as int
            }
            &&& b.history.len() == a.history.len() - gone + 1
            &&& forall|k: int|
                0 <= k < b.history.len() - 1 ==> #[trigger] b.history[k] == a.history[k + gone]
            &&& r.asset_id == asset_id && r.task_type == x.task_type
            &&& r.priority == Priority::Low
            &&& r.notes == "Auto-created from recurring schedule".spec_bytes()
            &&& r.engineer == engineer && r.timestamp == call.now && r.cost is None
            &&& b.score == a.score && b.last_update == Some(call.now)
            &&& b.last_service == Some(call.now)
            &&& b.credits.len() == b.history.len()
            &&& forall|k: int|
                0 <= k < b.history.len() - 1 ==> #[trigger] b.credits[k] == a.credits[k + gone]
            &&& b.credits[b.history.len() - 1] == if s.config->0.task_weights.contains_key(
                x.task_type,
            ) {
                s.config->0.task_weights[x.task_type]
            } else {
                s.config->0.score_increment
            }
            &&& b.authorized == a.authorized && b.score_history == a.score_history
        }),
{
    assert(s.asset(asset_id).wf());
    lemma_task_place_is_unique(s.asset(asset_id).tasks, task_id, i);
}

proof fn lemma_task_place_is_unique(tasks: Seq<RecurringTask>, task_id: u64, i: int)
    requires
        0 <= i < tasks.len(),
        tasks[i].task_id == task_id,
        forall|x: int, y: int|
            0 <= x < y < tasks.len() ==> (#[trigger] tasks[x]).task_id != (
            #[trigger] tasks[y]).task_id,
    ensures
        task_place(tasks, task_id) == Some(i),
    decreases tasks.len(),
{
    let b = tasks.drop_last();
    if i < tasks.len() - 1 {
        assert forall|x: int, y: int| 0 <= x < y < b.len() implies (#[trigger] b[x]).task_id != (
        #[trigger] b[y]).task_id by {
            assert(tasks[x].task_id != tasks[y].task_id);
        }
        lemma_task_place_is_unique(b, task_id, i);
    } else {
        lemma_task_place_none(b, task_id, tasks);
    }
}

proof fn lemma_task_place_none(b: Seq<RecurringTask>, task_id: u64, tasks: Seq<RecurringTask>)
    requires
        b.len() < tasks.len(),
        forall|x: int| 0 <= x < b.len() ==> #[trigger] b[x] == tasks[x],
        tasks[tasks.len() - 1].task_id == task_id,
        forall|x: int, y: int|
            0 <= x < y < tasks.len() ==> (#[trigger] tasks[x]).task_id != (
            #[trigger] tasks[y]).task_id,
    ensures
        task_place(b, task_id) is None,
    decreases b.len(),
{
    if b.len() > 0 {
        assert forall|x: int| 0 <= x < b.drop_last().len() implies #[trigger] b.drop_last()[x]
            == tasks[x] by {
            assert(b[x] == tasks[x]);
        }
        lemma_task_place_none(b.drop_last(), task_id, tasks);
        let n = b.len() - 1;
        assert(b[n] == tasks[n]);
        assert(tasks[n].task_id != tasks[tasks.len() - 1].task_id);
    }
}

/// A recurring task is carried out exactly if the contract is open and initialized, the engineer
/// has signed, and the asset has an active task of that number.
pub proof fn recurring_tasks_are_carried_out_if(
    s: State,
    call: CallView,
    asset_id: u64,
    task_id: u64,
    engineer: Address,
    i: int,
)
    requires
        s.wf(),
        0 <= i < s.asset(asset_id).tasks.len(),
        s.asset(asset_id).tasks[i].task_id == task_id,
    ensures
        auto_create_recurring_task_result(s, call, asset_id, task_id, engineer) is Ok
            <==> !s.paused && call.signers.contains(engineer) && s.config is Some && s.asset(
            asset_id,
        ).tasks[i].is_active,
{
    lemma_task_place_is_unique(s.asset(asset_id).tasks, task_id, i);
}

/// A reset empties the history and sets the score to 0 at the time of the call; pruning keeps the
/// latest entries; purging leaves nothing; and none of them touches another asset.
pub proof fn upkeep_touches_one_asset(
    s: State,
    call: CallView,
    admin: Address,
    asset_id: u64,
    other: u64,
)
    requires
        other != asset_id,
    ensures
        reset_score_result(s, call, admin, asset_id) matches Ok(t) ==> {
            let b = t.assets[asset_id];
            &&& b.history.len() == 0 && b.credits.len() == 0 && b.score == 0
            &&& b.last_update == Some(call.now)
            &&& t.asset(other) == s.asset(other) && t.engineers == s.engineers
            &&& t.config == s.config
        },
        prune_asset_history_result(s, call, admin, asset_id) matches Ok(t) ==> {
            let (a, b) = (s.asset(asset_id), t.assets[asset_id]);
            &&& t.asset(other) == s.asset(other) && t.config == s.config
            &&& b.score == a.score && b.last_update == a.last_update
            &&& b.authorized == a.authorized
        },
        purge_asset_data_result(s, call, admin, asset_id) matches Ok(t) ==> t.asset(other)
            == s.asset(other) && t.config == s.config && t.assets[asset_id].authorized == s.asset(
            asset_id,
        ).authorized,
{
}

/// Marking a duplicate adds its time to the marks, and needs a record of that time.
pub proof fn marks_name_a_record(
    s: State,
    call: CallView,
    admin: Address,
    asset_id: u64,
    primary_id: u64,
    duplicate_id: u64,
)
    ensures
        mark_duplicate_result(s, call, admin, asset_id, primary_id, duplicate_id) matches Ok(t)
            ==> {
            let (a, b) = (s.asset(asset_id), t.assets[asset_id]);
            &&& exists|i: int|
                0 <= i < a.history.len() && (#[trigger] a.history[i]).timestamp == duplicate_id
            &&& b.duplicates.len() == a.duplicates.len() + 1
            &&& b.duplicates[a.duplicates.len() as int] == duplicate_id
            &&& forall|i: int|
                0 <= i < a.duplicates.len() ==> #[trigger] b.duplicates[i] == a.duplicates[i]
            &&& b.history == a.history && b.score == a.score
        },
{
}

/// An engineer who forgets an asset keeps the other assets, in their order, and the window.
pub proof fn forgetting_keeps_the_others(
    e: crate::types::EngineerView,
    asset_id: u64,
    places: Seq<int>,
)
    requires
        forall|k: int|
            0 <= k < places.len() ==> 0 <= #[trigger] places[k] < e.assets.len()
                && e.assets[places[k]] != asset_id,
        forall|k: int, l: int| 0 <= k < l < places.len() ==> places[k] < places[l],
        forall|i: int|
            0 <= i < e.assets.len() && #[trigger] e.assets[i] != asset_id ==> places.contains(i),
    ensures
        forgets(e, asset_id).assets == Seq::new(places.len(), |k: int| e.assets[places[k]]),
        forgets(e, asset_id).window == e.window,
{
    lemma_filter_places(e.assets, other_than(asset_id), places);
}

/// The scores of several assets are those of the registered ones, in order, each behind its
/// number; `places` are their places. A deprecated asset and one out of service score 0.
pub proof fn score_lists_name_registered_assets(
    s: State,
    call: CallView,
    ids: Seq<u64>,
    places: Seq<int>,
    k: int,
)
    requires
        forall|k: int|
            0 <= k < places.len() ==> 0 <= #[trigger] places[k] < ids.len()
                && call.assets.contains_key(ids[places[k]]),
        forall|k: int, l: int| 0 <= k < l < places.len() ==> places[k] < places[l],
        forall|i: int|
            0 <= i < ids.len() && call.assets.contains_key(#[trigger] ids[i]) ==> places.contains(
                i,
            ),
        0 <= k < places.len(),
    ensures
        ({
            let list = ids.filter(registered(call)).map_values(numbered_score(s, call));
            let id = ids[places[k]];
            &&& list.len() == places.len()
            &&& list[k].0 == id
            &&& list[k].1 == stored_score(s, call.assets[id], call.now, id)
            &&& call.assets[id].deprecated || s.asset(id).frozen ==> list[k].1 == 0
        }),
{
    lemma_filter_places(ids, registered(call), places);
}

/// The eligibility of several assets is told for each, in order.
pub proof fn eligibilities_are_told_for_each(s: State, call: CallView, ids: Seq<u64>, k: int)
    requires
        0 <= k < ids.len(),
    ensures
        eligibilities(s, call, ids).len() == ids.len(),
        eligibilities(s, call, ids)[k] == crate::scores::eligible(
            s,
            call.assets[ids[k]],
            call.now,
            ids[k],
        ),
{
}

/// An asset of which nothing is kept has no records, no score and nobody authorized; an engineer
/// of whom nothing is kept has no assets; and what is kept is what is told.
pub proof fn nothing_is_made_up(s: State, asset_id: u64, engineer: Address)
    ensures
        !s.assets.contains_key(asset_id) ==> {
            let a = s.asset(asset_id);
            &&& a.history.len() == 0 && a.credits.len() == 0 && a.score == 0
            &&& a.last_update is None && a.last_service is None
            &&& a.score_history.len() == 0 && a.valuations.len() == 0
            &&& !a.authorized.contains(engineer) && !a.revocations.contains_key(engineer)
            &&& !a.frozen && a.snapshots.len() == 0 && a.transfers.len() == 0
            &&& a.tasks.len() == 0 && a.duplicates.len() == 0
        },
        s.assets.contains_key(asset_id) ==> s.asset(asset_id) == s.assets[asset_id],
        !s.engineers.contains_key(engineer) ==> s.engineer(engineer).assets.len() == 0
            && s.engineer(engineer).window is None,
        s.engineers.contains_key(engineer) ==> s.engineer(engineer) == s.engineers[engineer],
{
}

/// What an engineer registry that does not know the engineer answers, and else its own answer.
pub proof fn unknown_engineers_have_no_credential(call: CallView, engineer: Address)
    ensures
        !call.engineers.contains_key(engineer) ==> {
            let e = call.engineer(engineer);
            &&& e.status == CredentialStatus::NotFound && e.reputation == 0
            &&& e.specializations.len() == 0
        },
        call.engineers.contains_key(engineer) ==> call.engineer(engineer)
            == call.engineers[engineer],
{
}

/// What has to hold before an operation or a question is let through, and how it is refused.
pub proof fn checks_refuse_for_their_reason(
    s: State,
    call: CallView,
    who: Address,
    asset_id: u64,
)
    requires
        s.wf(),
    ensures
        ({
            let e = s.entry_check(call, who);
            &&& s.paused ==> e == Some(Abort::Error(LifecycleError::Paused))
            &&& !s.paused && !call.signers.contains(who) ==> e == Some(Abort::MissingAuth(who))
            &&& !s.paused && call.signers.contains(who) ==> e is None
        }),
        ({
            let e = s.admin_check(who);
            &&& s.config is None ==> e == Some(Abort::Error(LifecycleError::NotInitialized))
            &&& s.config is Some && s.config->0.admin != who ==> e == Some(
                Abort::Error(LifecycleError::UnauthorizedAdmin),
            )
            &&& s.config is Some && s.config->0.admin == who ==> e is None
        }),
        ({
            let known = call.assets.contains_key(asset_id);
            let e = s.owner_check(call, asset_id, who);
            &&& s.config is None ==> e == Some(Abort::Error(LifecycleError::NotInitialized))
            &&& s.config is Some && !known ==> e == Some(
                Abort::Error(LifecycleError::AssetNotFound),
            )
            &&& s.config is Some && known && call.assets[asset_id].owner != who ==> e == Some(
                Abort::Error(LifecycleError::UnauthorizedOwner),
            )
            &&& s.config is Some && known && call.assets[asset_id].owner == who ==> e is None
        }),
        ({
            let known = call.assets.contains_key(asset_id);
            let (e, f) = (s.asset_check(call, asset_id), score_check(s, call, asset_id));
            &&& s.config is None ==> e == Some(Abort::Error(LifecycleError::NotInitialized))
            &&& s.config is Some && !known ==> e == Some(
                Abort::Error(LifecycleError::AssetNotFound),
            )
            &&& s.config is Some && known ==> e is None
            &&& f == e
        }),
        ({
            let e = decay_check(s, asset_id);
            &&& s.paused ==> e == Some(Abort::Error(LifecycleError::Paused))
            &&& !s.paused && s.asset(asset_id).frozen ==> e is None
            &&& !s.paused && !s.asset(asset_id).frozen ==> (e is None <==> s.config is Some)
        }),
{
}

/// Settings are accepted exactly if the contract is open, the administrator has signed, and the
/// value is acceptable.
pub proof fn settings_are_accepted_if(
    s: State,
    call: CallView,
    who: Address,
    value: u32,
    interval: u64,
    name: Symbol,
    bytes: Seq<u8>,
    registry: Address,
    admins: Seq<Address>,
    hash: WasmHash,
)
    requires
        s.wf(),
    ensures
        ({
            let may = !s.paused && call.signers.contains(who) && s.config is Some
                && s.config->0.admin == who;
            let zero = Address { is_contract: true, head: 0, tail: 0 };
            &&& update_score_increment_result(s, call, who, value) is Ok <==> may && value > 0
            &&& update_decay_config_result(s, call, who, value, interval) is Ok <==> may && value
                > 0 && interval > 0
            &&& update_eligibility_threshold_result(s, call, who, value) is Ok <==> may && value > 0
            &&& update_max_history_result(s, call, who, value) is Ok <==> may && value > 0
            &&& update_max_notes_length_result(s, call, who, value) is Ok <==> may && value > 0
            &&& set_max_notes_length_result(s, call, who, value) is Ok <==> may && value > 0
            &&& set_eligibility_threshold_result(s, call, who, value) is Ok <==> may && value > 0
            &&& set_max_submissions_per_hour_result(s, call, who, value) is Ok <==> may
            &&& set_task_weight_result(s, call, who, name, value) is Ok <==> may && value > 0
            &&& update_scoring_weights_result(s, call, who, name, bytes) is Ok <==> may
                && weights_in(bytes) is Some
            &&& update_asset_registry_result(s, call, who, registry) is Ok <==> may && registry
                != zero && s.engineer_registry != Some(registry)
            &&& update_engineer_registry_result(s, call, who, registry) is Ok <==> may && registry
                != zero && s.asset_registry != Some(registry)
            &&& set_admin_quorum_result(s, call, who, admins, value) is Ok <==> may && value
                <= admins.len()
            &&& propose_config_update_result(s, call, who, name) is Ok <==> may
            &&& propose_upgrade_result(s, call, who, hash) is Ok <==> may
            &&& register_standard_result(s, call, who, name, bytes) is Ok <==> may
                && !s.standards.contains_key(name)
        }),
{
}

/// Upkeep is accepted exactly if the contract is open and the administrator has signed; a reset
/// asks for the quorum instead, and a mark for a record of that time.
pub proof fn upkeep_is_accepted_if(
    s: State,
    call: CallView,
    who: Address,
    asset_id: u64,
    primary_id: u64,
    duplicate_id: u64,
)
    ensures
        ({
            let open = !s.paused && call.signers.contains(who) && s.config is Some;
            let may = open && s.config->0.admin == who;
            &&& prune_asset_history_result(s, call, who, asset_id) is Ok <==> may
            &&& purge_asset_data_result(s, call, who, asset_id) is Ok <==> may
            &&& force_decay_result(s, call, who, asset_id) is Ok <==> may
            &&& mark_duplicate_result(s, call, who, asset_id, primary_id, duplicate_id) is Ok
                <==> may && exists|i: int|
                0 <= i < s.asset(asset_id).history.len() && (#[trigger] s.asset(
                    asset_id,
                ).history[i]).timestamp == duplicate_id
            &&& reset_score_result(s, call, who, asset_id) is Ok <==> open && quorum_check(
                s.config->0,
                call.signers,
                who,
            ) is None
            &&& pause_result(s, call, who) is Ok <==> call.signers.contains(who) && s.config is Some
                && quorum_check(s.config->0, call.signers, who) is None
            &&& propose_pause_result(s, call, who) is Ok <==> open && quorum_check(
                s.config->0,
                call.signers,
                who,
            ) is None
            &&& propose_unpause_result(s, call, who) is Ok <==> call.signers.contains(who)
                && s.config is Some && s.config->0.admin == who
            &&& propose_admin_result(s, call, who, who) is Ok <==> call.signers.contains(who)
                && s.config is Some && s.config->0.admin == who && s.pending_admin is None
        }),
{
}

/// The role of the administrator can be accepted exactly if it is offered, the offer is open and
/// 172800 seconds old, and the address to which it is offered has signed; an upgrade exactly if
/// the administrator has signed, the contract is open, and a proposal is open and as old.
pub proof fn offers_are_accepted_if(s: State, call: CallView, who: Address)
    requires
        s.wf(),
    ensures
        ({
            let (role, code) = (short_symbol(ADM_XFER), short_symbol(UPGRADE));
            let old = |op: Symbol|
                s.timelocks.contains_key(op) && !s.timelocks[op].executed && call.now
                    >= s.timelocks[op].proposed_at + 172_800;
            &&& accept_admin_result(s, call) is Ok <==> s.pending_admin is Some && old(role)
                && call.signers.contains(s.pending_admin->0) && s.config is Some
            &&& s.pending_admin is None ==> accept_admin_result(s, call) == Err::<State, Abort>(
                Abort::Error(LifecycleError::NotInitialized),
            )
            &&& execute_upgrade_result(s, call, who) is Ok <==> !s.paused && call.signers.contains(
                who,
            ) && s.config is Some && s.config->0.admin == who && old(code)
                && s.pending_upgrade is Some
            &&& execute_upgrade_result(s, call, who) matches Ok(t) ==> t.pending_upgrade is None
                && t.timelocks[code].executed
            &&& accept_admin_result(s, call) matches Ok(t) ==> t.timelocks[role].executed
                && t.pending_admin is None && t.config->0.admin == s.pending_admin->0
        }),
{
}

/// Every change of a setting is announced with its old and its new value, and audited with the
/// administrator, the time and the new value, behind what was announced before.
pub proof fn settings_are_announced(
    s: State,
    call: CallView,
    admin: Address,
    value: u32,
    interval: u64,
    task_type: Symbol,
    registry: Address,
)
    ensures
        ({
            let c = s.config->0;
            let told = |t: State, n: Notice, action: Action|
                t.events == s.events.push(EventView::Plain(n)).push(
                    EventView::Plain(Notice::Audit { admin, timestamp: call.now, action }),
                );
            &&& update_score_increment_result(s, call, admin, value) matches Ok(t) ==> told(
                t,
                Notice::ScoreIncrementUpdated { old_value: c.score_increment, new_value: value },
                Action::ScoreIncrement { value },
            )
            &&& update_decay_config_result(s, call, admin, value, interval) matches Ok(t) ==> told(
                t,
                Notice::DecayUpdated {
                    old_rate: c.decay_rate,
                    new_rate: value,
                    old_interval: c.decay_interval,
                    new_interval: interval,
                },
                Action::Decay { rate: value, interval },
            )
            &&& update_eligibility_threshold_result(s, call, admin, value) matches Ok(t) ==> told(
                t,
                Notice::EligibilityUpdated {
                    old_value: c.eligibility_threshold,
                    new_value: value,
                },
                Action::Eligibility { value },
            )
            &&& update_max_history_result(s, call, admin, value) matches Ok(t) ==> told(
                t,
                Notice::MaxHistoryUpdated { admin, value },
                Action::MaxHistory { value },
            )
            &&& update_max_notes_length_result(s, call, admin, value) matches Ok(t) ==> told(
                t,
                Notice::MaxNotesUpdated { admin, value },
                Action::MaxNotes { value },
            )
            &&& set_max_notes_length_result(s, call, admin, value) matches Ok(t) ==> told(
                t,
                Notice::MaxNotesSet { admin, value },
                Action::MaxNotes { value },
            )
            &&& set_eligibility_threshold_result(s, call, admin, value) matches Ok(t) ==> told(
                t,
                Notice::EligibilitySet {
                    admin,
                    old_value: c.eligibility_threshold,
                    new_value: value,
                },
                Action::EligibilityThreshold { value },
            )
            &&& set_max_submissions_per_hour_result(s, call, admin, value) matches Ok(t) ==> told(
                t,
                Notice::RateLimitSet {
                    admin,
                    old_value: c.max_submissions_per_hour,
                    new_value: value,
                },
                Action::RateLimit { value },
            )
            &&& set_task_weight_result(s, call, admin, task_type, value) matches Ok(t) ==> told(
                t,
                Notice::TaskWeightSet { task_type, weight: value },
                Action::TaskWeight { task_type, weight: value },
            )
            &&& update_asset_registry_result(s, call, admin, registry) matches Ok(t) ==> told(
                t,
                Notice::AssetRegistrySet { admin, registry },
                Action::AssetRegistry { registry },
            )
            &&& update_engineer_registry_result(s, call, admin, registry) matches Ok(t) ==> told(
                t,
                Notice::EngineerRegistrySet { admin, registry },
                Action::EngineerRegistry { registry },
            )
            &&& pause_result(s, call, admin) matches Ok(t) ==> told(
                t,
                Notice::Paused { admin },
                Action::Paused,
            )
            &&& unpause_result(s, call, admin) matches Ok(t) ==> told(
                t,
                Notice::Unpaused { admin },
                Action::Unpaused,
            )
            &&& propose_pause_result(s, call, admin) matches Ok(t) ==> told(
                t,
                Notice::PauseProposed { admin },
                Action::PauseProposed,
            )
            &&& propose_unpause_result(s, call, admin) matches Ok(t) ==> told(
                t,
                Notice::UnpauseProposed { admin },
                Action::UnpauseProposed,
            )
            &&& propose_admin_result(s, call, admin, registry) matches Ok(t) ==> told(
                t,
                Notice::AdminProposed { admin, new_admin: registry },
                Action::AdminProposed { new_admin: registry },
            )
        }),
{
}

/// What the work on one asset announces, behind what was announced before.
pub proof fn work_on_an_asset_is_announced(
    s: State,
    call: CallView,
    who: Address,
    asset_id: u64,
    other: Address,
    number: u64,
    task_type: Symbol,
    interval_type: Symbol,
)
    ensures
        ({
            let told = |t: State, n: Notice| t.events == s.events.push(EventView::Plain(n));
            let now = call.now;
            &&& propose_revoke_engineer_auth_result(s, call, who, asset_id, other) matches Ok(t)
                ==> told(
                t,
                Notice::RevocationProposed {
                    owner: who,
                    asset_id,
                    engineer: other,
                    timestamp: now,
                },
            )
            &&& execute_revoke_engineer_auth_result(s, call, who, asset_id, other) matches Ok(t)
                ==> told(
                t,
                Notice::EngineerRevoked { owner: who, asset_id, engineer: other, timestamp: now },
            )
            &&& transfer_notify_result(s, call, asset_id, who) matches Ok(t) ==> told(
                t,
                Notice::TransferNotified { asset_id, new_owner: who },
            )
            &&& decommission_notify_result(s, call, asset_id) matches Ok(t) ==> told(
                t,
                Notice::Decommissioned { asset_id, score: 0 },
            )
            &&& schedule_recurring_task_result(
                s,
                call,
                who,
                asset_id,
                number,
                task_type,
                interval_type,
                number,
            ) matches Ok(t) ==> told(
                t,
                Notice::TaskScheduled {
                    asset_id,
                    task_id: number,
                    task_type,
                    interval_value: number,
                },
            )
            &&& mark_duplicate_result(s, call, who, asset_id, number, number) matches Ok(t) ==> told(
                t,
                Notice::DuplicateMarked {
                    asset_id,
                    primary_id: number,
                    duplicate_id: number,
                    timestamp: now,
                },
            )
            &&& reset_score_result(s, call, who, asset_id) matches Ok(t) ==> t.events
                == s.events.push(
                EventView::Plain(Notice::ScoreReset { asset_id, admin: who, timestamp: now }),
            ).push(
                EventView::Plain(
                    Notice::Audit {
                        admin: who,
                        timestamp: now,
                        action: Action::ScoreReset { asset_id },
                    },
                ),
            )
            &&& purge_asset_data_result(s, call, who, asset_id) matches Ok(t) ==> t.events
                == s.events.push(
                EventView::Plain(Notice::PurgeDone { admin: who, asset_id }),
            ).push(
                EventView::Plain(
                    Notice::Audit { admin: who, timestamp: now, action: Action::Purge { asset_id } },
                ),
            )
        }),
{
}

/// Pruning announces how many records are dropped and the time of the first of them, where any
/// are, and then itself.
pub proof fn pruning_is_announced(s: State, call: CallView, admin: Address, asset_id: u64)
    requires
        s.wf(),
        prune_asset_history_result(s, call, admin, asset_id) is Ok,
    ensures
        ({
            let t = prune_asset_history_result(s, call, admin, asset_id)->Ok_0;
            let h = s.asset(asset_id).history;
            let max = s.config->0.max_history;
            let before = if h.len() > max {
                s.events.push(
                    EventView::Plain(
                        Notice::HistoryPruned {
                            asset_id,
                            count: (h.len() - max) as u32,
                            oldest: h[0].timestamp,
                        },
                    ),
                )
            } else {
                s.events
            };
            &&& t.events == before.push(
                EventView::Plain(Notice::PruneDone { admin, asset_id }),
            ).push(
                EventView::Plain(
                    Notice::Audit { admin, timestamp: call.now, action: Action::Prune { asset_id } },
                ),
            )
            &&& t.assets[asset_id].history.len() == if h.len() > max {
                max as int
            } else {
                h.len() as int
            }
            &&& forall|i: int|
                0 <= i < t.assets[asset_id].history.len() ==> #[trigger] t.assets[asset_id].history[i]
                    == h[i + h.len() - t.assets[asset_id].history.len()]
            &&& forall|i: int|
                0 <= i < t.assets[asset_id].history.len() ==> #[trigger] t.assets[asset_id].credits[i]
                    == s.asset(asset_id).credits[i + h.len() - t.assets[asset_id].history.len()]
        }),
{
    assert(s.asset(asset_id).wf());
}

/// A change of owner names the engineers of the history, each once, among those whose
/// authorizations are gone, and leaves nobody authorized, however it is made known.
pub proof fn transfers_clear_the_engineers(
    s: State,
    call: CallView,
    asset_id: u64,
    previous_owner: Address,
    new_owner: Address,
    engineer: Address,
)
    ensures
        record_transfer_result(s, call, asset_id, previous_owner, new_owner) matches Ok(t) ==> {
            let k = t.assets[asset_id].history;
            let e = t.events[s.events.len() as int];
            &&& e matches EventView::AuthorizationsCleared { asset_id: id, engineers: list } && id
                == asset_id && list.no_duplicates() && (list.contains(engineer) <==> exists|i: int|
                0 <= i < k.len() && (#[trigger] k[i]).engineer == engineer)
        },
        transfer_notify_result(s, call, asset_id, new_owner) matches Ok(t) ==> {
            let (a, b) = (s.asset(asset_id), t.assets[asset_id]);
            &&& !b.authorized.contains(engineer)
            &&& b == (AssetView { authorized: b.authorized, ..a })
        },
        clear_engineer_authorizations_result(s, call, new_owner, asset_id) matches Ok(t) ==> {
            let (a, b) = (s.asset(asset_id), t.assets[asset_id]);
            &&& !b.authorized.contains(engineer)
            &&& b == (AssetView { authorized: b.authorized, ..a })
        },
        decommission_notify_result(s, call, asset_id) matches Ok(t) ==> {
            let (a, b) = (s.asset(asset_id), t.assets[asset_id]);
            &&& b.frozen && b.score == 0
            &&& b == (AssetView { frozen: true, score: 0, ..a })
        },
{
    if let Ok(t) = record_transfer_result(s, call, asset_id, previous_owner, new_owner) {
        let k = t.assets[asset_id].history;
        lemma_distinct(engineers(k));
        if distinct(engineers(k)).contains(engineer) {
            assert(engineers(k).contains(engineer));
            let i = choose|i: int| 0 <= i < engineers(k).len() && engineers(k)[i] == engineer;
            assert(k[i].engineer == engineer);
        }
        if exists|i: int| 0 <= i < k.len() && (#[trigger] k[i]).engineer == engineer {
            let i = choose|i: int| 0 <= i < k.len() && (#[trigger] k[i]).engineer == engineer;
            assert(engineers(k)[i] == engineer);
            assert(distinct(engineers(k)).contains(engineer));
        }
    }
}

/// An engineer all of whose records of an asset are pruned no longer lists it; one of whom a
/// record stays, or who had none, lists what they did. Purging takes the asset from the list of
/// every engineer of its history, and from no other.
pub proof fn upkeep_updates_the_engineers(
    s: State,
    call: CallView,
    admin: Address,
    asset_id: u64,
    engineer: Address,
)
    requires
        s.wf(),
        s.engineers.contains_key(engineer),
    ensures
        prune_asset_history_result(s, call, admin, asset_id) matches Ok(t) ==> {
            let h = s.asset(asset_id).history;
            let max = s.config->0.max_history;
            let n = if h.len() > max {
                h.len() - max
            } else {
                0
            };
            let early = exists|i: int| 0 <= i < n && (#[trigger] h[i]).engineer == engineer;
            let late = exists|i: int| n <= i < h.len() && (#[trigger] h[i]).engineer == engineer;
            &&& early && !late ==> !t.engineers[engineer].assets.contains(asset_id)
            &&& !early || late ==> t.engineers[engineer] == s.engineers[engineer]
        },
        purge_asset_data_result(s, call, admin, asset_id) matches Ok(t) ==> {
            let h = s.asset(asset_id).history;
            let worked = exists|i: int| 0 <= i < h.len() && (#[trigger] h[i]).engineer == engineer;
            &&& worked ==> !t.engineers[engineer].assets.contains(asset_id)
            &&& !worked ==> t.engineers[engineer] == s.engineers[engineer]
        },
{
    let h = s.asset(asset_id).history;
    let max = s.config->0.max_history;
    lemma_forgets_wf(s.engineers[engineer], asset_id);
    if h.len() > max {
        let n = h.len() - max;
        let (x, y) = (engineers(h.take(n)), engineers(h.skip(n)));
        if prune_asset_history_result(s, call, admin, asset_id) is Ok {
            pruning_updates_the_engineers(s, call, admin, asset_id, engineer);
            let early = exists|i: int| 0 <= i < n && (#[trigger] h[i]).engineer == engineer;
            let late = exists|i: int| n <= i < h.len() && (#[trigger] h[i]).engineer == engineer;
            if x.contains(engineer) {
                let i = choose|i: int| 0 <= i < x.len() && x[i] == engineer;
                assert(h[i].engineer == engineer);
            }
            if early {
                let i = choose|i: int| 0 <= i < n && (#[trigger] h[i]).engineer == engineer;
                assert(x[i] == engineer);
            }
            if y.contains(engineer) {
                let i = choose|i: int| 0 <= i < y.len() && y[i] == engineer;
                assert(h[i + n].engineer == engineer);
            }
            if late {
                let i = choose|i: int|
                    n <= i < h.len() && (#[trigger] h[i]).engineer == engineer;
                assert(y[i - n] == engineer);
            }
        }
    }
    let all = engineers(h);
    lemma_distinct(all);
    let worked = exists|i: int| 0 <= i < h.len() && (#[trigger] h[i]).engineer == engineer;
    if worked {
        let i = choose|i: int| 0 <= i < h.len() && (#[trigger] h[i]).engineer == engineer;
        assert(all[i] == engineer);
        assert(distinct(all).contains(engineer));
    } else {
        if distinct(all).contains(engineer) {
            let i = choose|i: int| 0 <= i < all.len() && all[i] == engineer;
            assert(h[i].engineer == engineer);
        }
    }
}

/// A revocation is carried out exactly if the owner has signed, the contract is open, and a
/// proposal is open and 172800 seconds old; else it is refused for what is missing.
pub proof fn revocations_are_carried_out_if(
    s: State,
    call: CallView,
    owner: Address,
    asset_id: u64,
    engineer: Address,
)
    requires
        s.wf(),
        !s.paused && call.signers.contains(owner) && s.config is Some,
        call.assets.contains_key(asset_id),
        call.assets[asset_id].owner == owner,
    ensures
        ({
            let r = execute_revoke_engineer_auth_result(s, call, owner, asset_id, engineer);
            let a = s.asset(asset_id);
            let p = a.revocations[engineer];
            let open = a.revocations.contains_key(engineer) && !p.executed;
            &&& !open ==> r == Err::<State, Abort>(Abort::Error(LifecycleError::ProposalNotFound))
            &&& open && call.now < p.proposed_at + 172_800 ==> r == Err::<State, Abort>(
                Abort::Error(LifecycleError::TimelockNotExpired),
            )
            &&& open && call.now >= p.proposed_at + 172_800 ==> r is Ok
        }),
{
}

/// A task that no task of the asset has the number of is not found, and can be scheduled by the
/// owner with a positive interval; one of that number cannot be scheduled again.
pub proof fn tasks_are_known_by_their_number(
    s: State,
    call: CallView,
    who: Address,
    asset_id: u64,
    task_id: u64,
    task_type: Symbol,
    interval_type: Symbol,
    interval_value: u64,
)
    requires
        s.wf(),
        !s.paused && call.signers.contains(who) && s.config is Some,
    ensures
        ({
            let tasks = s.asset(asset_id).tasks;
            let known = exists|i: int|
                0 <= i < tasks.len() && (#[trigger] tasks[i]).task_id == task_id;
            let r = schedule_recurring_task_result(
                s,
                call,
                who,
                asset_id,
                task_id,
                task_type,
                interval_type,
                interval_value,
            );
            let owned = call.assets.contains_key(asset_id) && call.assets[asset_id].owner == who;
            &&& !known ==> auto_create_recurring_task_result(s, call, asset_id, task_id, who)
                == Err::<State, Abort>(Abort::Error(LifecycleError::RecurringTaskNotFound))
            &&& interval_value == 0 ==> r == Err::<State, Abort>(
                Abort::Error(LifecycleError::InvalidRecurringSchedule),
            )
            &&& interval_value > 0 && owned && known ==> r == Err::<State, Abort>(
                Abort::Error(LifecycleError::DuplicateRecurringTask),
            )
            &&& r is Ok <==> interval_value > 0 && owned && !known
        }),
{
    let tasks = s.asset(asset_id).tasks;
    lemma_task_place_finds(tasks, task_id);
}

proof fn lemma_task_place_finds(tasks: Seq<RecurringTask>, task_id: u64)
    ensures
        task_place(tasks, task_id) is Some <==> exists|i: int|
            0 <= i < tasks.len() && (#[trigger] tasks[i]).task_id == task_id,
    decreases tasks.len(),
{
    if tasks.len() > 0 {
        let b = tasks.drop_last();
        lemma_task_place_finds(b, task_id);
        if task_place(b, task_id) is Some {
            let i = choose|i: int| 0 <= i < b.len() && (#[trigger] b[i]).task_id == task_id;
            assert(tasks[i].task_id == task_id);
        }
        if exists|i: int| 0 <= i < tasks.len() && (#[trigger] tasks[i]).task_id == task_id {
            let i = choose|i: int|
                0 <= i < tasks.len() && (#[trigger] tasks[i]).task_id == task_id;
            if i < b.len() {
                assert(b[i].task_id == task_id);
            }
        }
        if tasks.last().task_id == task_id {
            assert(tasks[tasks.len() - 1].task_id == task_id);
        }
    }
}

/// A setting that would be zero is refused as invalid before the caller is looked at, and a caller
/// who is not the administrator is refused as such.
pub proof fn settings_are_refused_for_their_reason(
    s: State,
    call: CallView,
    who: Address,
    value: u32,
    interval: u64,
    name: Symbol,
)
    requires
        s.wf(),
        !s.paused && call.signers.contains(who) && s.config is Some,
    ensures
        ({
            let invalid = Err::<State, Abort>(Abort::Error(LifecycleError::InvalidConfig));
            let stranger = Err::<State, Abort>(Abort::Error(LifecycleError::UnauthorizedAdmin));
            let other = s.config->0.admin != who;
            &&& update_score_increment_result(s, call, who, 0) == invalid
            &&& update_decay_config_result(s, call, who, 0, interval) == invalid
            &&& update_decay_config_result(s, call, who, value, 0) == invalid
            &&& update_max_history_result(s, call, who, 0) == invalid
            &&& update_max_notes_length_result(s, call, who, 0) == invalid
            &&& set_max_notes_length_result(s, call, who, 0) == invalid
            &&& set_eligibility_threshold_result(s, call, who, 0) == invalid
            &&& set_task_weight_result(s, call, who, name, 0) == invalid
            &&& !other ==> update_eligibility_threshold_result(s, call, who, 0) == invalid
            &&& other ==> update_eligibility_threshold_result(s, call, who, value) == stranger
            &&& other && value > 0 ==> {
                &&& update_score_increment_result(s, call, who, value) == stranger
                &&& update_max_history_result(s, call, who, value) == stranger
                &&& update_max_notes_length_result(s, call, who, value) == stranger
                &&& set_max_notes_length_result(s, call, who, value) == stranger
                &&& set_eligibility_threshold_result(s, call, who, value) == stranger
                &&& set_task_weight_result(s, call, who, name, value) == stranger
            }
            &&& other ==> set_max_submissions_per_hour_result(s, call, who, value) == stranger
        }),
{
}

} // verus!
