//! Laws of governance: proposals, the pause, the administrators.

use vstd::prelude::*;

use crate::call::CallView;
use crate::errors::{Abort, LifecycleError};
use crate::governance::{
    accept_admin_result, cosigners, execute_upgrade_result, execution, first_unsigned, pause_result,
    propose_admin_result, propose_config_update_result, propose_pause_result,
    propose_upgrade_result, quorum_check, set_admin_quorum_result, single_admin, unpause_result,
    ADM_XFER, PAUSE, TIMELOCK_DELAY_SECS, UNPAUSE, UPGRADE,
};
use crate::lists::other_than;
use crate::maintenance::{batch_submitted, submitted};
use crate::names::{short_symbol, Address, Symbol};
use crate::ownership::{
    authorize_engineer_result, clear_engineer_authorizations_result,
    execute_revoke_engineer_auth_result, propose_revoke_engineer_auth_result,
    record_transfer_result,
};
use crate::recurring::{auto_create_recurring_task_result, schedule_recurring_task_result};
use crate::scores::{decay_check, force_decay_result, reset_score_result};
use crate::settings::{
    initialize_result, set_eligibility_threshold_result, set_max_notes_length_result,
    set_max_submissions_per_hour_result, set_task_weight_result, update_asset_registry_result,
    update_decay_config_result, update_eligibility_threshold_result,
    update_engineer_registry_result, update_max_history_result, update_max_notes_length_result,
    update_score_increment_result, update_scoring_weights_result, AST_REG, DEC_CFG, ELIG, ENG_REG,
    MAX_HIST, MAX_NOTE, SC_INC,
};
use crate::state::{error, State};
use crate::types::{BatchView, ConfigView, Priority, WasmHash};
use crate::upkeep::{
    mark_duplicate_result, prune_asset_history_result, purge_asset_data_result,
    register_standard_result,
};

verus! {

/// A proposal can be executed from the end of its delay on and not before.
pub proof fn proposals_wait(s: State, proposed_at: u64, now: u64, op: Symbol)
    ensures
        s.proposed(proposed_at, op).timelock_check(now, op) == if now < proposed_at
            + TIMELOCK_DELAY_SECS {
            error(LifecycleError::TimelockNotExpired)
        } else {
            None::<Abort>
        },
{
}

/// Nothing is executed that was not proposed, or before its delay has elapsed.
pub proof fn nothing_is_executed_early(
    s: State,
    now: u64,
    op: Symbol,
    effect: spec_fn(State) -> Result<State, Abort>,
)
    requires
        execution(s, now, op, effect) is Ok,
    ensures
        s.timelocks.contains_key(op),
        !s.timelocks[op].executed,
        now >= s.timelocks[op].proposed_at + TIMELOCK_DELAY_SECS,
{
}

/// A proposal is executed at most once: from then on it is not found, at any time.
pub proof fn proposals_are_executed_once(
    s: State,
    now: u64,
    later: u64,
    op: Symbol,
    effect: spec_fn(State) -> Result<State, Abort>,
)
    requires
        execution(s, now, op, effect) is Ok,
        forall|t: State| #[trigger]
            effect(t) matches Ok(u) ==> u.timelocks == t.timelocks,
    ensures
        execution(execution(s, now, op, effect)->Ok_0, later, op, effect) == Err::<State, Abort>(
            Abort::Error(LifecycleError::ProposalNotFound),
        ),
{
    assert(effect(s.executed(op)) is Ok);
}

/// The operations that proposals stand for leave all proposals as they are.
pub proof fn effects_keep_proposals(
    s: State,
    call: CallView,
    admin: Address,
    value: u32,
    interval: u64,
    registry: Address,
)
    ensures
        pause_result(s, call, admin) matches Ok(t) ==> t.timelocks == s.timelocks,
        unpause_result(s, call, admin) matches Ok(t) ==> t.timelocks == s.timelocks,
        update_score_increment_result(s, call, admin, value) matches Ok(t) ==> t.timelocks
            == s.timelocks,
        update_decay_config_result(s, call, admin, value, interval) matches Ok(t) ==> t.timelocks
            == s.timelocks,
        update_eligibility_threshold_result(s, call, admin, value) matches Ok(t) ==> t.timelocks
            == s.timelocks,
        update_max_history_result(s, call, admin, value) matches Ok(t) ==> t.timelocks
            == s.timelocks,
        update_max_notes_length_result(s, call, admin, value) matches Ok(t) ==> t.timelocks
            == s.timelocks,
        update_asset_registry_result(s, call, admin, registry) matches Ok(t) ==> t.timelocks
            == s.timelocks,
        update_engineer_registry_result(s, call, admin, registry) matches Ok(t) ==> t.timelocks
            == s.timelocks,
{
}

/// Once a proposed operation has been executed its proposal is not found any longer, at any time.
pub proof fn executed_proposals_are_gone(
    s: State,
    call: CallView,
    later: u64,
    admin: Address,
    value: u32,
    interval: u64,
    registry: Address,
)
    ensures
        ({
            let gone = error(LifecycleError::ProposalNotFound);
            let now = call.now;
            &&& execution(
                s,
                now,
                short_symbol(PAUSE),
                |t: State| pause_result(t, call, admin),
            ) matches Ok(u) ==> u.timelock_check(later, short_symbol(PAUSE)) == gone
            &&& execution(
                s,
                now,
                short_symbol(UNPAUSE),
                |t: State| unpause_result(t, call, admin),
            ) matches Ok(u) ==> u.timelock_check(later, short_symbol(UNPAUSE)) == gone
            &&& execution(
                s,
                now,
                short_symbol(SC_INC),
                |t: State| update_score_increment_result(t, call, admin, value),
            ) matches Ok(u) ==> u.timelock_check(later, short_symbol(SC_INC)) == gone
            &&& execution(
                s,
                now,
                short_symbol(DEC_CFG),
                |t: State| update_decay_config_result(t, call, admin, value, interval),
            ) matches Ok(u) ==> u.timelock_check(later, short_symbol(DEC_CFG)) == gone
            &&& execution(
                s,
                now,
                short_symbol(ELIG),
                |t: State| update_eligibility_threshold_result(t, call, admin, value),
            ) matches Ok(u) ==> u.timelock_check(later, short_symbol(ELIG)) == gone
            &&& execution(
                s,
                now,
                short_symbol(MAX_HIST),
                |t: State| update_max_history_result(t, call, admin, value),
            ) matches Ok(u) ==> u.timelock_check(later, short_symbol(MAX_HIST)) == gone
            &&& execution(
                s,
                now,
                short_symbol(MAX_NOTE),
                |t: State| update_max_notes_length_result(t, call, admin, value),
            ) matches Ok(u) ==> u.timelock_check(later, short_symbol(MAX_NOTE)) == gone
            &&& execution(
                s,
                now,
                short_symbol(AST_REG),
                |t: State| update_asset_registry_result(t, call, admin, registry),
            ) matches Ok(u) ==> u.timelock_check(later, short_symbol(AST_REG)) == gone
            &&& execution(
                s,
                now,
                short_symbol(ENG_REG),
                |t: State| update_engineer_registry_result(t, call, admin, registry),
            ) matches Ok(u) ==> u.timelock_check(later, short_symbol(ENG_REG)) == gone
            &&& accept_admin_result(s, call) matches Ok(u) ==> u.timelock_check(
                later,
                short_symbol(ADM_XFER),
            ) == gone
        }),
{
}

/// An upgrade takes effect only after its delay, with the code that was proposed last, and once.
pub proof fn upgrades_wait(s: State, call: CallView, later: CallView, admin: Address)
    requires
        execute_upgrade_result(s, call, admin) is Ok,
    ensures
        s.timelocks.contains_key(short_symbol(UPGRADE)),
        call.now >= s.timelocks[short_symbol(UPGRADE)].proposed_at + TIMELOCK_DELAY_SECS,
        s.pending_upgrade is Some,
        execute_upgrade_result(execute_upgrade_result(s, call, admin)->Ok_0, later, admin) is Err,
{
}

/// While the contract is paused, every operation that would change records, authorizations or
/// settings is refused as paused.
pub proof fn pause_refuses_changes(
    s: State,
    call: CallView,
    who: Address,
    other: Address,
    asset_id: u64,
    number: u64,
    name: Symbol,
    other_name: Symbol,
    priority: Priority,
    bytes: Seq<u8>,
    list: Seq<BatchView>,
    cost: Option<u64>,
    costs: Option<Seq<Option<u64>>>,
    admins: Seq<Address>,
    value: u32,
    hash: WasmHash,
)
    requires
        s.paused,
    ensures
        ({
            let refused = Err::<State, Abort>(Abort::Error(LifecycleError::Paused));
            &&& submitted(s, call, asset_id, name, priority, bytes, who, cost) == refused
            &&& batch_submitted(s, call, asset_id, list, who, costs) == refused
            &&& record_transfer_result(s, call, asset_id, other, who) == refused
            &&& authorize_engineer_result(s, call, who, asset_id, other) == refused
            &&& propose_revoke_engineer_auth_result(s, call, who, asset_id, other) == refused
            &&& execute_revoke_engineer_auth_result(s, call, who, asset_id, other) == refused
            &&& clear_engineer_authorizations_result(s, call, who, asset_id) == refused
            &&& schedule_recurring_task_result(
                s,
                call,
                who,
                asset_id,
                number,
                name,
                other_name,
                number,
            ) == refused
            &&& auto_create_recurring_task_result(s, call, asset_id, number, who) == refused
            &&& decay_check(s, asset_id) == error(LifecycleError::Paused)
            &&& force_decay_result(s, call, who, asset_id) == refused
            &&& reset_score_result(s, call, who, asset_id) == refused
            &&& prune_asset_history_result(s, call, who, asset_id) == refused
            &&& purge_asset_data_result(s, call, who, asset_id) == refused
            &&& mark_duplicate_result(s, call, who, asset_id, number, number) == refused
            &&& register_standard_result(s, call, who, name, bytes) == refused
            &&& update_score_increment_result(s, call, who, value) == refused
            &&& update_decay_config_result(s, call, who, value, number) == refused
            &&& update_eligibility_threshold_result(s, call, who, value) == refused
            &&& update_max_history_result(s, call, who, value) == refused
            &&& update_max_notes_length_result(s, call, who, value) == refused
            &&& set_max_notes_length_result(s, call, who, value) == refused
            &&& set_eligibility_threshold_result(s, call, who, value) == refused
            &&& set_max_submissions_per_hour_result(s, call, who, value) == refused
            &&& set_task_weight_result(s, call, who, name, value) == refused
            &&& update_scoring_weights_result(s, call, who, name, bytes) == refused
            &&& update_asset_registry_result(s, call, who, other) == refused
            &&& update_engineer_registry_result(s, call, who, other) == refused
            &&& set_admin_quorum_result(s, call, who, admins, value) == refused
            &&& propose_config_update_result(s, call, who, name) == refused
            &&& propose_pause_result(s, call, who) == refused
            &&& propose_upgrade_result(s, call, who, hash) == refused
            &&& execute_upgrade_result(s, call, who) == refused
        }),
{
}

/// The administrator who has signed can always lift a pause, and everything is then as it was
/// before it, but for the announcements.
pub proof fn unpausing_undoes_pausing(
    s: State,
    call: CallView,
    later: CallView,
    who: Address,
    admin: Address,
)
    requires
        !s.paused,
        pause_result(s, call, who) is Ok,
        s.config matches Some(c) && c.admin == admin,
        later.signers.contains(admin),
    ensures
        pause_result(s, call, who)->Ok_0.paused,
        unpause_result(pause_result(s, call, who)->Ok_0, later, admin) matches Ok(t) && t == (State {
            events: t.events,
            ..s
        }),
{
}

/// The role of the administrator moves only when it has been offered, the delay has elapsed and
/// the address to which it was offered has signed; the offer is then gone.
pub proof fn admin_role_is_accepted(s: State, call: CallView)
    requires
        accept_admin_result(s, call) is Ok,
    ensures
        s.pending_admin matches Some(a) && call.signers.contains(a) && accept_admin_result(
            s,
            call,
        )->Ok_0.config == Some(ConfigView { admin: a, ..s.config->0 }),
        accept_admin_result(s, call)->Ok_0.pending_admin is None,
        call.now >= s.timelocks[short_symbol(ADM_XFER)].proposed_at + TIMELOCK_DELAY_SECS,
{
}

/// An offer of the role leaves the administrator in office, and a second offer is refused while
/// the first is open.
pub proof fn offers_leave_the_admin_in_office(
    s: State,
    call: CallView,
    later: CallView,
    admin: Address,
    new_admin: Address,
    another: Address,
)
    requires
        propose_admin_result(s, call, admin, new_admin) is Ok,
        later.signers.contains(admin),
    ensures
        propose_admin_result(s, call, admin, new_admin)->Ok_0.config == s.config,
        propose_admin_result(
            propose_admin_result(s, call, admin, new_admin)->Ok_0,
            later,
            admin,
            another,
        ) == Err::<State, Abort>(Abort::Error(LifecycleError::PendingAdminAlreadyExists)),
{
}

/// An offer that is accepted after its delay makes the address the administrator.
pub proof fn offered_role_can_be_accepted(
    s: State,
    call: CallView,
    later: CallView,
    admin: Address,
    new_admin: Address,
)
    requires
        propose_admin_result(s, call, admin, new_admin) is Ok,
        later.now >= call.now + TIMELOCK_DELAY_SECS,
        later.signers.contains(new_admin),
    ensures
        accept_admin_result(propose_admin_result(s, call, admin, new_admin)->Ok_0, later) matches Ok(t)
            && t.config == Some(ConfigView { admin: new_admin, ..s.config->0 }),
{
}

/// Where several administrators decide, a call that passes has the signatures of as many entries
/// of their list as the threshold says: the caller's and those of the cosigners.
pub proof fn quorum_needs_the_threshold(c: ConfigView, signers: Set<Address>, caller: Address)
    requires
        !single_admin(c),
        quorum_check(c, signers, caller) is None,
    ensures
        c.admins.contains(caller),
        cosigners(c, caller).len() == c.admin_threshold - 1,
        forall|i: int|
            0 <= i < cosigners(c, caller).len() ==> signers.contains(
                #[trigger] cosigners(c, caller)[i],
            ) && c.admins.contains(cosigners(c, caller)[i]) && cosigners(c, caller)[i] != caller,
{
    let list = cosigners(c, caller);
    let p = other_than(caller);
    lemma_all_signed(list, signers);
    assert forall|i: int| 0 <= i < list.len() implies signers.contains(#[trigger] list[i])
        && c.admins.contains(list[i]) && list[i] != caller by {
        lemma_filter_items(c.admins, p);
        let others = c.admins.filter(p);
        assert(list[i] == others[i]);
        assert(others.contains(others[i]));
    }
}

proof fn lemma_all_signed(list: Seq<Address>, signers: Set<Address>)
    requires
        first_unsigned(list, signers) is None,
    ensures
        forall|i: int| 0 <= i < list.len() ==> signers.contains(#[trigger] list[i]),
    decreases list.len(),
{
    if list.len() > 0 {
        lemma_all_signed(list.drop_last(), signers);
        assert forall|i: int| 0 <= i < list.len() implies signers.contains(#[trigger] list[i]) by {
            if i < list.len() - 1 {
                assert(list.drop_last()[i] == list[i]);
            }
        }
    }
}

proof fn lemma_filter_items(s: Seq<Address>, p: spec_fn(Address) -> bool)
    ensures
        forall|x: Address| #[trigger] s.filter(p).contains(x) ==> s.contains(x) && p(x),
    decreases s.len(),
{
    reveal(Seq::filter);
    if s.len() > 0 {
        let t = s.drop_last();
        lemma_filter_items(t, p);
        assert forall|x: Address| #[trigger] s.filter(p).contains(x) implies s.contains(x)
            && p(x) by {
            let k = choose|k: int| 0 <= k < s.filter(p).len() && s.filter(p)[k] == x;
            if k < t.filter(p).len() {
                assert(t.filter(p)[k] == x);
                assert(t.filter(p).contains(x));
                let i = choose|i: int| 0 <= i < t.len() && t[i] == x;
                assert(s[i] == x);
            } else {
                assert(s[s.len() - 1] == x);
            }
        }
    }
}

/// The contract is initialized once.
pub proof fn initialization_happens_once(
    s: State,
    call: CallView,
    later: CallView,
    deployer: Address,
    asset_registry: Address,
    engineer_registry: Address,
    admin: Address,
    max_history: u32,
    intruder: Address,
    other_asset_registry: Address,
    other_engineer_registry: Address,
    other_admin: Address,
    other_max_history: u32,
)
    requires
        initialize_result(
            s,
            call,
            deployer,
            asset_registry,
            engineer_registry,
            admin,
            max_history,
        ) is Ok,
        later.signers.contains(intruder),
    ensures
        initialize_result(
            initialize_result(
                s,
                call,
                deployer,
                asset_registry,
                engineer_registry,
                admin,
                max_history,
            )->Ok_0,
            later,
            intruder,
            other_asset_registry,
            other_engineer_registry,
            other_admin,
            other_max_history,
        ) == Err::<State, Abort>(Abort::Error(LifecycleError::AlreadyInitialized)),
{
}

/// A setting that is accepted is the one that holds from then on, and no other setting changes.
pub proof fn settings_are_what_was_set(
    s: State,
    call: CallView,
    admin: Address,
    value: u32,
    interval: u64,
)
    ensures
        update_score_increment_result(s, call, admin, value) matches Ok(t) ==> t.config == Some(
            ConfigView { score_increment: value, ..s.config->0 },
        ) && value > 0,
        update_decay_config_result(s, call, admin, value, interval) matches Ok(t) ==> t.config
            == Some(ConfigView { decay_rate: value, decay_interval: interval, ..s.config->0 })
            && value > 0 && interval > 0,
        update_eligibility_threshold_result(s, call, admin, value) matches Ok(t) ==> t.config
            == Some(ConfigView { eligibility_threshold: value, ..s.config->0 }) && value > 0,
        update_max_history_result(s, call, admin, value) matches Ok(t) ==> t.config == Some(
            ConfigView { max_history: value, ..s.config->0 },
        ) && value > 0,
        update_max_notes_length_result(s, call, admin, value) matches Ok(t) ==> t.config == Some(
            ConfigView { max_notes_length: value, ..s.config->0 },
        ) && value > 0,
        set_max_submissions_per_hour_result(s, call, admin, value) matches Ok(t) ==> t.config
            == Some(ConfigView { max_submissions_per_hour: value, ..s.config->0 }),
{
}

/// Only the administrator changes settings.
pub proof fn only_the_admin_changes_settings(
    s: State,
    call: CallView,
    who: Address,
    value: u32,
    interval: u64,
    name: Symbol,
    registry: Address,
)
    requires
        s.config matches Some(c) && c.admin != who,
    ensures
        update_score_increment_result(s, call, who, value) is Err,
        update_decay_config_result(s, call, who, value, interval) is Err,
        update_eligibility_threshold_result(s, call, who, value) is Err,
        update_max_history_result(s, call, who, value) is Err,
        update_max_notes_length_result(s, call, who, value) is Err,
        set_max_notes_length_result(s, call, who, value) is Err,
        set_eligibility_threshold_result(s, call, who, value) is Err,
        set_max_submissions_per_hour_result(s, call, who, value) is Err,
        set_task_weight_result(s, call, who, name, value) is Err,
        update_asset_registry_result(s, call, who, registry) is Err,
        update_engineer_registry_result(s, call, who, registry) is Err,
        unpause_result(s, call, who) is Err,
        propose_admin_result(s, call, who, registry) is Err,
{
}

} // verus!
