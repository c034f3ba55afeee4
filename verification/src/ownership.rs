//! What the owner of an asset decides, and what happens when the owner changes.

use vstd::prelude::*;
use vstd::string::StringSliceAdditionalSpecFns;

use crate::arith::monus;
use crate::call::{Call, CallView};
use crate::errors::{Abort, LifecycleError};
use crate::events::{Event, EventView, Notice};
use crate::governance::TIMELOCK_DELAY_SECS;
use crate::history::{engineers, engineers_between, push_record, XFER};
use crate::lists::{copy_list, copy_range, copy_slice, distinct};
use crate::names::{short_symbol, Address, Symbol};
use crate::state::{either, error, outcome, Lifecycle, State};
use crate::table::Table;
use crate::types::{
    copy_records, records, AssetView, MaintenanceRecord, Priority, RecordView, TimelockProposal,
    TransferRecord,
};

verus! {

/// What authorizing an engineer leads to.
pub open spec fn authorize_engineer_result(
    s: State,
    call: CallView,
    owner: Address,
    asset_id: u64,
    engineer: Address,
) -> Result<State, Abort> {
    let a = s.asset(asset_id);
    match either(s.entry_check(call, owner), s.owner_check(call, asset_id, owner)) {
        Some(e) => Err(e),
        None => Ok(
            s.with_asset(asset_id, AssetView { authorized: a.authorized.insert(engineer), ..a }),
        ),
    }
}

/// What proposing to take an engineer's authorization away leads to.
pub open spec fn propose_revoke_engineer_auth_result(
    s: State,
    call: CallView,
    owner: Address,
    asset_id: u64,
    engineer: Address,
) -> Result<State, Abort> {
    let a = s.asset(asset_id);
    match either(s.entry_check(call, owner), s.owner_check(call, asset_id, owner)) {
        Some(e) => Err(e),
        None => Ok(
            s.with_asset(
                asset_id,
                AssetView {
                    revocations: a.revocations.insert(
                        engineer,
                        TimelockProposal { proposed_at: call.now, executed: false },
                    ),
                    ..a
                },
            ).notify(
                Notice::RevocationProposed { owner, asset_id, engineer, timestamp: call.now },
            ),
        ),
    }
}

/// Why the call ends where a revocation has to have been proposed long enough ago and not yet
/// executed.
pub open spec fn revocation_check(a: AssetView, now: u64, engineer: Address) -> Option<Abort> {
    if !a.revocations.contains_key(engineer) || a.revocations[engineer].executed {
        error(LifecycleError::ProposalNotFound)
    } else if monus(now as int, a.revocations[engineer].proposed_at as int) < TIMELOCK_DELAY_SECS {
        error(LifecycleError::TimelockNotExpired)
    } else {
        None
    }
}

/// What taking an engineer's authorization away leads to.
pub open spec fn execute_revoke_engineer_auth_result(
    s: State,
    call: CallView,
    owner: Address,
    asset_id: u64,
    engineer: Address,
) -> Result<State, Abort> {
    let a = s.asset(asset_id);
    match either(
        s.entry_check(call, owner),
        either(
            s.owner_check(call, asset_id, owner),
            revocation_check(a, call.now, engineer),
        ),
    ) {
        Some(e) => Err(e),
        None => Ok(
            s.with_asset(
                asset_id,
                AssetView {
                    revocations: a.revocations.insert(
                        engineer,
                        TimelockProposal { executed: true, ..a.revocations[engineer] },
                    ),
                    authorized: a.authorized.remove(engineer),
                    ..a
                },
            ).notify(Notice::EngineerRevoked { owner, asset_id, engineer, timestamp: call.now }),
        ),
    }
}

/// What taking all authorizations away leads to.
pub open spec fn clear_engineer_authorizations_result(
    s: State,
    call: CallView,
    new_owner: Address,
    asset_id: u64,
) -> Result<State, Abort> {
    match either(s.entry_check(call, new_owner), s.owner_check(call, asset_id, new_owner)) {
        Some(e) => Err(e),
        None => Ok(
            s.with_asset(
                asset_id,
                AssetView { authorized: Set::empty(), ..s.asset(asset_id) },
            ),
        ),
    }
}

/// The record that marks a change of owner.
pub open spec fn sentinel(asset_id: u64, new_owner: Address, now: u64) -> RecordView {
    RecordView {
        asset_id,
        task_type: short_symbol(XFER),
        priority: Priority::Low,
        notes: "Ownership transferred".spec_bytes(),
        engineer: new_owner,
        timestamp: now,
        cost: None,
    }
}

/// The list after one more entry, where the oldest one makes room once there are `max`.
pub open spec fn with_entry<T>(h: Seq<T>, r: T, max: u32) -> Seq<T> {
    if h.len() >= max {
        h.skip(1).push(r)
    } else {
        h.push(r)
    }
}

/// What recording a change of owner leads to: the history and the provenance are extended, and
/// the authorizations that the previous owner gave are gone.
pub open spec fn record_transfer_result(
    s: State,
    call: CallView,
    asset_id: u64,
    previous_owner: Address,
    new_owner: Address,
) -> Result<State, Abort> {
    let a = s.asset(asset_id);
    match either(
        s.entry_check(call, new_owner),
        either(s.init_check(), s.owner_check(call, asset_id, new_owner)),
    ) {
        Some(e) => Err(e),
        None => {
            let history = with_entry(
                a.history,
                sentinel(asset_id, new_owner, call.now),
                s.config->0.max_history,
            );
            Ok(
                s.with_asset(
                    asset_id,
                    AssetView {
                        history,
                        credits: with_entry(a.credits, 0, s.config->0.max_history),
                        transfers: a.transfers.push(
                            TransferRecord {
                                from: previous_owner,
                                to: new_owner,
                                timestamp: call.now,
                            },
                        ),
                        authorized: Set::empty(),
                        ..a
                    },
                ).announce(
                    EventView::AuthorizationsCleared {
                        asset_id,
                        engineers: distinct(engineers(history)),
                    },
                ).notify(
                    Notice::Transferred {
                        asset_id,
                        previous_owner,
                        new_owner,
                        timestamp: call.now,
                        sentinel_index: (history.len() - 1) as u32,
                    },
                ),
            )
        },
    }
}

/// Why a report of the asset registry is refused: only the registry itself may make it.
pub open spec fn registry_check(s: State, call: CallView) -> Option<Abort> {
    match s.asset_registry {
        None => error(LifecycleError::NotInitialized),
        Some(registry) => either(call.auth_check(registry), s.init_check()),
    }
}

/// What the report of a change of owner leads to.
pub open spec fn transfer_notify_result(
    s: State,
    call: CallView,
    asset_id: u64,
    new_owner: Address,
) -> Result<State, Abort> {
    match either(registry_check(s, call), s.owner_check(call, asset_id, new_owner)) {
        Some(e) => Err(e),
        None => Ok(
            s.with_asset(
                asset_id,
                AssetView { authorized: Set::empty(), ..s.asset(asset_id) },
            ).notify(Notice::TransferNotified { asset_id, new_owner }),
        ),
    }
}

/// What the report that an asset is out of service leads to.
pub open spec fn decommission_notify_result(s: State, call: CallView, asset_id: u64) -> Result<
    State,
    Abort,
> {
    match registry_check(s, call) {
        Some(e) => Err(e),
        None => Ok(
            s.with_asset(
                asset_id,
                AssetView { frozen: true, score: 0, ..s.asset(asset_id) },
            ).notify(Notice::Decommissioned { asset_id, score: 0 }),
        ),
    }
}

impl Lifecycle {
    /// Ends the call unless the contract is open and `owner` has signed and owns the asset.
    fn require_owner_entry(&self, call: &Call, asset_id: u64, owner: Address) -> (r: Option<Abort>)
        ensures
            r == either(self@.entry_check(call@, owner), self@.owner_check(call@, asset_id, owner)),
    {
        match self.require_entry(call, owner) {
            Some(e) => Some(e),
            None => self.require_owner(call, asset_id, owner),
        }
    }

    /// Authorizes the engineer to submit maintenance for the asset.
    pub fn authorize_engineer(
        &mut self,
        call: &Call,
        owner: Address,
        asset_id: u64,
        engineer: Address,
    ) -> (r: Result<(), Abort>)
        requires
            old(self)@.wf(),
        ensures
            outcome(
                r,
                old(self)@,
                final(self)@,
                authorize_engineer_result(old(self)@, call@, owner, asset_id, engineer),
            ),
            final(self)@.wf(),
    {
        if let Some(e) = self.require_owner_entry(call, asset_id, owner) {
            return Err(e);
        }
        let mut asset = self.load_asset(asset_id);
        let ghost a = asset@;
        asset.authorized.put(engineer, ());
        assert(asset@.authorized =~= a.authorized.insert(engineer));
        self.store_asset(asset_id, asset);
        Ok(())
    }

    /// Proposes to take the engineer's authorization away.
    pub fn propose_revoke_engineer_auth(
        &mut self,
        call: &Call,
        owner: Address,
        asset_id: u64,
        engineer: Address,
    ) -> (r: Result<(), Abort>)
        requires
            old(self)@.wf(),
        ensures
            outcome(
                r,
                old(self)@,
                final(self)@,
                propose_revoke_engineer_auth_result(old(self)@, call@, owner, asset_id, engineer),
            ),
            final(self)@.wf(),
    {
        if let Some(e) = self.require_owner_entry(call, asset_id, owner) {
            return Err(e);
        }
        let now: u64 = call.now;
        let mut asset = self.load_asset(asset_id);
        asset.revocations.put(engineer, TimelockProposal { proposed_at: now, executed: false });
        self.store_asset(asset_id, asset);
        self.notify(Notice::RevocationProposed { owner, asset_id, engineer, timestamp: now });
        Ok(())
    }

    /// Takes the engineer's authorization away, as proposed.
    pub fn execute_revoke_engineer_auth(
        &mut self,
        call: &Call,
        owner: Address,
        asset_id: u64,
        engineer: Address,
    ) -> (r: Result<(), Abort>)
        requires
            old(self)@.wf(),
        ensures
            outcome(
                r,
                old(self)@,
                final(self)@,
                execute_revoke_engineer_auth_result(old(self)@, call@, owner, asset_id, engineer),
            ),
            final(self)@.wf(),
    {
        if let Some(e) = self.require_owner_entry(call, asset_id, owner) {
            return Err(e);
        }
        let now: u64 = call.now;
        let mut asset = self.load_asset(asset_id);
        let proposed_at: u64 = match asset.revocations.get(engineer) {
            None => return Err(Abort::Error(LifecycleError::ProposalNotFound)),
            Some(p) => {
                if p.executed {
                    return Err(Abort::Error(LifecycleError::ProposalNotFound));
                }
                p.proposed_at
            },
        };
        if now.saturating_sub(proposed_at) < TIMELOCK_DELAY_SECS {
            return Err(Abort::Error(LifecycleError::TimelockNotExpired));
        }
        let ghost a = asset@;
        asset.revocations.put(engineer, TimelockProposal { proposed_at, executed: true });
        asset.authorized.remove(engineer);
        assert(asset@.authorized =~= a.authorized.remove(engineer));
        self.store_asset(asset_id, asset);
        self.notify(Notice::EngineerRevoked { owner, asset_id, engineer, timestamp: now });
        Ok(())
    }

    /// Takes all authorizations for the asset away.
    fn drop_authorizations(&mut self, asset_id: u64)
        ensures
            final(self)@ == old(self)@.with_asset(
                asset_id,
                AssetView { authorized: Set::empty(), ..old(self)@.asset(asset_id) },
            ),
    {
        let mut asset = self.load_asset(asset_id);
        asset.authorized = Table::new();
        assert(asset@.authorized =~= Set::empty());
        self.store_asset(asset_id, asset);
    }

    /// Takes all authorizations for the asset away after a change of owner.
    pub fn clear_engineer_authorizations(
        &mut self,
        call: &Call,
        new_owner: Address,
        asset_id: u64,
    ) -> (r: Result<(), Abort>)
        requires
            old(self)@.wf(),
        ensures
            outcome(
                r,
                old(self)@,
                final(self)@,
                clear_engineer_authorizations_result(old(self)@, call@, new_owner, asset_id),
            ),
            final(self)@.wf(),
    {
        if let Some(e) = self.require_owner_entry(call, asset_id, new_owner) {
            return Err(e);
        }
        self.drop_authorizations(asset_id);
        Ok(())
    }

    /// Records a change of owner in the history of the asset.
    pub fn record_transfer(
        &mut self,
        call: &Call,
        asset_id: u64,
        previous_owner: Address,
        new_owner: Address,
    ) -> (r: Result<(), Abort>)
        requires
            old(self)@.wf(),
        ensures
            outcome(
                r,
                old(self)@,
                final(self)@,
                record_transfer_result(old(self)@, call@, asset_id, previous_owner, new_owner),
            ),
            final(self)@.wf(),
    {
        if let Some(e) = self.require_entry(call, new_owner) {
            return Err(e);
        }
        let config = match self.load_config() {
            Some(c) => c,
            None => return Err(Abort::Error(LifecycleError::NotInitialized)),
        };
        if let Some(e) = self.require_owner(call, asset_id, new_owner) {
            return Err(e);
        }
        let now: u64 = call.now;
        let record = MaintenanceRecord {
            asset_id,
            task_type: Symbol::short(XFER),
            priority: Priority::Low,
            notes: copy_slice("Ownership transferred".as_bytes()),
            engineer: new_owner,
            timestamp: now,
            cost: None,
        };
        let mut asset = self.load_asset(asset_id);
        append_record(&mut asset.history, record, config.max_history);
        append_credit(&mut asset.credits, 0, config.max_history);
        let n: usize = asset.history.len();
        let cleared: Vec<Address> = engineers_between(&asset.history, 0, n);
        assert(asset@.history.subrange(0, n as int) =~= asset@.history);
        asset.transfers.push(TransferRecord { from: previous_owner, to: new_owner, timestamp: now });
        asset.authorized = Table::new();
        assert(asset@.authorized =~= Set::empty());
        self.store_asset(asset_id, asset);
        self.announce(Event::AuthorizationsCleared { asset_id, engineers: cleared });
        self.notify(
            Notice::Transferred {
                asset_id,
                previous_owner,
                new_owner,
                timestamp: now,
                sentinel_index: (n - 1) as u32,
            },
        );
        Ok(())
    }

    /// Ends the call unless the asset registry makes it.
    fn require_registry(&self, call: &Call) -> (r: Option<Abort>)
        ensures
            r == registry_check(self@, call@),
    {
        let registry = match self.get_asset_registry() {
            Ok(a) => a,
            Err(e) => return Some(e),
        };
        if let Some(e) = call.require_auth(registry) {
            return Some(e);
        }
        if self.load_config().is_none() {
            return Some(Abort::Error(LifecycleError::NotInitialized));
        }
        None
    }

    /// Takes note of a change of owner that the asset registry reports.
    pub fn transfer_notify(&mut self, call: &Call, asset_id: u64, new_owner: Address) -> (r: Result<
        (),
        Abort,
    >)
        requires
            old(self)@.wf(),
        ensures
            outcome(
                r,
                old(self)@,
                final(self)@,
                transfer_notify_result(old(self)@, call@, asset_id, new_owner),
            ),
            final(self)@.wf(),
    {
        if let Some(e) = self.require_registry(call) {
            return Err(e);
        }
        if let Some(e) = self.require_owner(call, asset_id, new_owner) {
            return Err(e);
        }
        self.drop_authorizations(asset_id);
        self.notify(Notice::TransferNotified { asset_id, new_owner });
        Ok(())
    }

    /// Takes note that an asset is out of service, as the asset registry reports: its score is
    /// zero from now on.
    pub fn decommission_notify(&mut self, call: &Call, asset_id: u64) -> (r: Result<(), Abort>)
        requires
            old(self)@.wf(),
        ensures
            outcome(
                r,
                old(self)@,
                final(self)@,
                decommission_notify_result(old(self)@, call@, asset_id),
            ),
            final(self)@.wf(),
    {
        if let Some(e) = self.require_registry(call) {
            return Err(e);
        }
        let mut asset = self.load_asset(asset_id);
        asset.frozen = true;
        asset.score = 0;
        self.store_asset(asset_id, asset);
        self.notify(Notice::Decommissioned { asset_id, score: 0 });
        Ok(())
    }

    /// The changes of owner of the asset, oldest first.
    pub fn get_transfer_history(&self, asset_id: u64) -> (r: Vec<TransferRecord>)
        ensures
            r@ == self@.asset(asset_id).transfers,
    {
        copy_list(&self.load_asset(asset_id).transfers)
    }
}

/// Appends the record; the oldest one makes room once there are `max`.
pub fn append_record(history: &mut Vec<MaintenanceRecord>, r: MaintenanceRecord, max: u32)
    requires
        max > 0,
    ensures
        records(final(history)@) == with_entry(records(old(history)@), r@, max),
        final(history)@.len() == if old(history)@.len() >= max {
            old(history)@.len()
        } else {
            old(history)@.len() + 1
        },
{
    let n: usize = history.len();
    if n as u64 >= max as u64 {
        *history = copy_records(history, 1, n);
        assert(records(history@) =~= records(old(history)@).skip(1));
    }
    push_record(history, r);
    assert(records(history@).len() == history@.len());
}

/// Appends the credit; the oldest one makes room once there are `max`.
pub fn append_credit(credits: &mut Vec<u32>, credit: u32, max: u32)
    requires
        max > 0,
    ensures
        final(credits)@ == with_entry(old(credits)@, credit, max),
{
    let n: usize = credits.len();
    if n as u64 >= max as u64 {
        *credits = copy_range(credits, 1, n);
        assert(credits@ =~= old(credits)@.skip(1));
    }
    credits.push(credit);
}

} // verus!
