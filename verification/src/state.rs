//! The state of the contract.

use vstd::prelude::*;

use crate::call::{AssetInfo, Call, CallView};
use crate::errors::{Abort, LifecycleError};
use crate::events::{Action, Event, EventView, Notice};
use crate::names::{Address, Symbol};
use crate::table::Table;
use crate::types::{
    Asset, AssetView, Config, ConfigView, Engineer, EngineerView, TimelockProposal, WasmHash,
};

verus! {

/// The state of the contract as a mathematical value.
pub struct State {
    /// The settings; there are none before the contract is initialized.
    pub config: Option<ConfigView>,
    pub asset_registry: Option<Address>,
    pub engineer_registry: Option<Address>,
    pub paused: bool,
    /// The address to which the administrator role is offered.
    pub pending_admin: Option<Address>,
    /// The code that an upgrade is proposed to.
    pub pending_upgrade: Option<WasmHash>,
    /// The latest proposal for each operation.
    pub timelocks: Map<Symbol, TimelockProposal>,
    /// The frequency weights of each asset type, as they were given.
    pub scoring_weights: Map<Symbol, Seq<u8>>,
    /// The compliance standard of each asset type.
    pub standards: Map<Symbol, Seq<u8>>,
    pub assets: Map<u64, AssetView>,
    pub engineers: Map<Address, EngineerView>,
    /// What has been announced, oldest first.
    pub events: Seq<EventView>,
}

/// What ends a call with a contract error.
pub open spec fn error(e: LifecycleError) -> Option<Abort> {
    Some(Abort::Error(e))
}

/// The first of two checks that fails.
pub open spec fn either(first: Option<Abort>, second: Option<Abort>) -> Option<Abort> {
    if first is Some {
        first
    } else {
        second
    }
}

/// The call has had its effect, or has ended without any.
pub open spec fn outcome(
    r: Result<(), Abort>,
    before: State,
    after: State,
    expected: Result<State, Abort>,
) -> bool {
    match expected {
        Ok(s) => r is Ok && after == s,
        Err(e) => r == Err::<(), Abort>(e) && after == before,
    }
}

impl State {
    /// The state before the contract is initialized.
    pub open spec fn initial() -> State {
        State {
            config: None,
            asset_registry: None,
            engineer_registry: None,
            paused: false,
            pending_admin: None,
            pending_upgrade: None,
            timelocks: Map::empty(),
            scoring_weights: Map::empty(),
            standards: Map::empty(),
            assets: Map::empty(),
            engineers: Map::empty(),
            events: Seq::empty(),
        }
    }

    /// What every reachable state satisfies.
    pub open spec fn wf(self) -> bool {
        &&& self.config matches Some(c) ==> c.wf()
        &&& self.config is Some <==> self.asset_registry is Some
        &&& self.config is Some <==> self.engineer_registry is Some
        &&& self.config is Some ==> self.asset_registry != self.engineer_registry
        &&& forall|id: u64| #[trigger]
            self.assets.contains_key(id) ==> self.assets[id].wf()
        &&& forall|a: Address| #[trigger]
            self.engineers.contains_key(a) ==> self.engineers[a].wf()
    }

    /// What is kept of the asset.
    pub open spec fn asset(self, asset_id: u64) -> AssetView {
        if self.assets.contains_key(asset_id) {
            self.assets[asset_id]
        } else {
            AssetView::empty()
        }
    }

    /// What is kept of the engineer.
    pub open spec fn engineer(self, engineer: Address) -> EngineerView {
        if self.engineers.contains_key(engineer) {
            self.engineers[engineer]
        } else {
            EngineerView::empty()
        }
    }

    /// The state in which `a` is kept of the asset.
    pub open spec fn with_asset(self, asset_id: u64, a: AssetView) -> State {
        State { assets: self.assets.insert(asset_id, a), ..self }
    }

    /// The state in which `e` is kept of the engineer.
    pub open spec fn with_engineer(self, engineer: Address, e: EngineerView) -> State {
        State { engineers: self.engineers.insert(engineer, e), ..self }
    }

    /// The state with these settings.
    pub open spec fn with_config(self, c: ConfigView) -> State {
        State { config: Some(c), ..self }
    }

    /// The state in which `p` is the latest proposal for the operation.
    pub open spec fn with_timelock(self, op: Symbol, p: TimelockProposal) -> State {
        State { timelocks: self.timelocks.insert(op, p), ..self }
    }

    /// The state in which `e` has been announced too.
    pub open spec fn announce(self, e: EventView) -> State {
        State { events: self.events.push(e), ..self }
    }

    /// The state in which `n` has been announced too.
    pub open spec fn notify(self, n: Notice) -> State {
        self.announce(EventView::Plain(n))
    }

    /// The state in which the audit entry has been announced too.
    pub open spec fn audit(self, admin: Address, timestamp: u64, action: Action) -> State {
        self.notify(Notice::Audit { admin, timestamp, action })
    }

    /// Why the call ends while the contract is paused.
    pub open spec fn pause_check(self) -> Option<Abort> {
        if self.paused {
            error(LifecycleError::Paused)
        } else {
            None
        }
    }

    /// Why the call ends before the contract is initialized.
    pub open spec fn init_check(self) -> Option<Abort> {
        if self.config is None {
            error(LifecycleError::NotInitialized)
        } else {
            None
        }
    }

    /// Why the call ends where `admin` has to be the administrator.
    pub open spec fn admin_check(self, admin: Address) -> Option<Abort> {
        match self.config {
            None => error(LifecycleError::NotInitialized),
            Some(c) => if c.admin != admin {
                error(LifecycleError::UnauthorizedAdmin)
            } else {
                None
            },
        }
    }

    /// Why the call ends where the contract has to be open and `who` has to have signed.
    pub open spec fn entry_check(self, call: CallView, who: Address) -> Option<Abort> {
        either(self.pause_check(), call.auth_check(who))
    }

    /// Why the call ends where the asset has to be registered.
    pub open spec fn asset_check(self, call: CallView, asset_id: u64) -> Option<Abort> {
        if self.asset_registry is None {
            error(LifecycleError::NotInitialized)
        } else if !call.assets.contains_key(asset_id) {
            error(LifecycleError::AssetNotFound)
        } else {
            None
        }
    }

    /// Why the call ends where `owner` has to own the asset.
    pub open spec fn owner_check(self, call: CallView, asset_id: u64, owner: Address) -> Option<
        Abort,
    > {
        either(
            self.asset_check(call, asset_id),
            if call.assets[asset_id].owner != owner {
                error(LifecycleError::UnauthorizedOwner)
            } else {
                None
            },
        )
    }
}

/// The lifecycle contract.
pub struct Lifecycle {
    config: Option<Config>,
    asset_registry: Option<Address>,
    engineer_registry: Option<Address>,
    paused: bool,
    pending_admin: Option<Address>,
    pending_upgrade: Option<WasmHash>,
    timelocks: Table<Symbol, TimelockProposal>,
    scoring_weights: Table<Symbol, Vec<u8>>,
    standards: Table<Symbol, Vec<u8>>,
    assets: Table<u64, Asset>,
    engineers: Table<Address, Engineer>,
    events: Vec<Event>,
}

/// The announcements of a list as mathematical values.
pub open spec fn event_views(list: Seq<Event>) -> Seq<EventView> {
    Seq::new(list.len(), |i: int| list[i]@)
}

impl View for Lifecycle {
    type V = State;

    closed spec fn view(&self) -> State {
        State {
            config: match self.config {
                Some(c) => Some(c@),
                None => None,
            },
            asset_registry: self.asset_registry,
            engineer_registry: self.engineer_registry,
            paused: self.paused,
            pending_admin: self.pending_admin,
            pending_upgrade: self.pending_upgrade,
            timelocks: self.timelocks@,
            scoring_weights: self.scoring_weights@.map_values(|v: Vec<u8>| v@),
            standards: self.standards@.map_values(|v: Vec<u8>| v@),
            assets: self.assets@.map_values(|a: Asset| a@),
            engineers: self.engineers@.map_values(|e: Engineer| e@),
            events: event_views(self.events@),
        }
    }
}

impl Lifecycle {
    /// The contract before it is initialized.
    pub fn new() -> (r: Self)
        ensures
            r@ == State::initial(),
            r@.wf(),
    {
        let r = Lifecycle {
            config: None,
            asset_registry: None,
            engineer_registry: None,
            paused: false,
            pending_admin: None,
            pending_upgrade: None,
            timelocks: Table::new(),
            scoring_weights: Table::new(),
            standards: Table::new(),
            assets: Table::new(),
            engineers: Table::new(),
            events: Vec::new(),
        };
        assert(r@.scoring_weights =~= Map::empty());
        assert(r@.standards =~= Map::empty());
        assert(r@.assets =~= Map::empty());
        assert(r@.engineers =~= Map::empty());
        assert(r@.events =~= Seq::empty());
        r
    }

    /// What has been announced, oldest first.
    pub fn events(&self) -> (r: &Vec<Event>)
        ensures
            event_views(r@) == self@.events,
    {
        &self.events
    }

    /// Whether something is kept of the asset.
    pub fn knows_asset(&self, asset_id: u64) -> (b: bool)
        ensures
            b == self@.assets.contains_key(asset_id),
    {
        self.assets.get(asset_id).is_some()
    }

    /// A copy of what is kept of the asset.
    pub fn load_asset(&self, asset_id: u64) -> (r: Asset)
        ensures
            r@ == self@.asset(asset_id),
    {
        match self.assets.get(asset_id) {
            Some(a) => a.duplicate(),
            None => Asset::new(),
        }
    }

    /// Keeps `a` of the asset.
    pub(crate) fn store_asset(&mut self, asset_id: u64, a: Asset)
        ensures
            final(self)@ == old(self)@.with_asset(asset_id, a@),
    {
        self.assets.put(asset_id, a);
        assert(self@.assets =~= old(self)@.assets.insert(asset_id, a@));
    }

    /// Whether something is kept of the engineer.
    pub fn knows_engineer(&self, engineer: Address) -> (b: bool)
        ensures
            b == self@.engineers.contains_key(engineer),
    {
        self.engineers.get(engineer).is_some()
    }

    /// A copy of what is kept of the engineer.
    pub fn load_engineer(&self, engineer: Address) -> (r: Engineer)
        ensures
            r@ == self@.engineer(engineer),
    {
        match self.engineers.get(engineer) {
            Some(e) => e.duplicate(),
            None => Engineer::new(),
        }
    }

    /// Keeps `e` of the engineer.
    pub(crate) fn store_engineer(&mut self, engineer: Address, e: Engineer)
        ensures
            final(self)@ == old(self)@.with_engineer(engineer, e@),
    {
        self.engineers.put(engineer, e);
        assert(self@.engineers =~= old(self)@.engineers.insert(engineer, e@));
    }

    /// A copy of the settings.
    pub(crate) fn load_config(&self) -> (r: Option<Config>)
        ensures
            r is Some <==> self@.config is Some,
            r matches Some(c) ==> self@.config == Some(c@),
    {
        match &self.config {
            Some(c) => Some(c.duplicate()),
            None => None,
        }
    }

    /// Makes `c` the settings.
    pub(crate) fn store_config(&mut self, c: Config)
        ensures
            final(self)@ == old(self)@.with_config(c@),
    {
        self.config = Some(c);
    }

    /// The latest proposal for the operation.
    pub fn timelock(&self, op: Symbol) -> (r: Option<TimelockProposal>)
        ensures
            r == if self@.timelocks.contains_key(op) {
                Some(self@.timelocks[op])
            } else {
                None::<TimelockProposal>
            },
    {
        match self.timelocks.get(op) {
            Some(p) => Some(*p),
            None => None,
        }
    }

    /// Makes `p` the latest proposal for the operation.
    pub(crate) fn store_proposal(&mut self, op: Symbol, p: TimelockProposal)
        ensures
            final(self)@ == old(self)@.with_timelock(op, p),
    {
        self.timelocks.put(op, p);
    }

    /// Sets the address to which the administrator role is offered.
    pub(crate) fn set_pending_admin(&mut self, p: Option<Address>)
        ensures
            final(self)@ == (State { pending_admin: p, ..old(self)@ }),
    {
        self.pending_admin = p;
    }

    /// The address to which the administrator role is offered.
    pub fn pending_admin(&self) -> (r: Option<Address>)
        ensures
            r == self@.pending_admin,
    {
        self.pending_admin
    }

    /// Sets the code that an upgrade is proposed to.
    pub(crate) fn set_pending_upgrade(&mut self, p: Option<WasmHash>)
        ensures
            final(self)@ == (State { pending_upgrade: p, ..old(self)@ }),
    {
        self.pending_upgrade = p;
    }

    /// The code that an upgrade is proposed to.
    pub fn pending_upgrade(&self) -> (r: Option<WasmHash>)
        ensures
            r == self@.pending_upgrade,
    {
        self.pending_upgrade
    }

    /// Sets whether the contract is paused.
    pub(crate) fn set_paused(&mut self, paused: bool)
        ensures
            final(self)@ == (State { paused, ..old(self)@ }),
    {
        self.paused = paused;
    }

    /// Whether the contract is paused.
    pub fn is_paused(&self) -> (b: bool)
        ensures
            b == self@.paused,
    {
        self.paused
    }

    /// Sets the address of the asset registry.
    pub(crate) fn set_asset_registry_addr(&mut self, registry: Address)
        ensures
            final(self)@ == (State { asset_registry: Some(registry), ..old(self)@ }),
    {
        self.asset_registry = Some(registry);
    }

    /// Sets the address of the engineer registry.
    pub(crate) fn set_engineer_registry_addr(&mut self, registry: Address)
        ensures
            final(self)@ == (State { engineer_registry: Some(registry), ..old(self)@ }),
    {
        self.engineer_registry = Some(registry);
    }

    /// The address of the asset registry.
    pub fn get_asset_registry(&self) -> (r: Result<Address, Abort>)
        ensures
            r == match self@.asset_registry {
                Some(a) => Ok(a),
                None => Err::<Address, Abort>(Abort::Error(LifecycleError::NotInitialized)),
            },
    {
        match self.asset_registry {
            Some(a) => Ok(a),
            None => Err(Abort::Error(LifecycleError::NotInitialized)),
        }
    }

    /// The address of the engineer registry.
    pub fn get_engineer_registry(&self) -> (r: Result<Address, Abort>)
        ensures
            r == match self@.engineer_registry {
                Some(a) => Ok(a),
                None => Err::<Address, Abort>(Abort::Error(LifecycleError::NotInitialized)),
            },
    {
        match self.engineer_registry {
            Some(a) => Ok(a),
            None => Err(Abort::Error(LifecycleError::NotInitialized)),
        }
    }

    /// Stores the frequency weights of the asset type.
    pub(crate) fn store_scoring_weights(&mut self, asset_type: Symbol, weights_json: Vec<u8>)
        ensures
            final(self)@ == (State {
                scoring_weights: old(self)@.scoring_weights.insert(asset_type, weights_json@),
                ..old(self)@
            }),
    {
        self.scoring_weights.put(asset_type, weights_json);
        assert(self@.scoring_weights =~= old(self)@.scoring_weights.insert(
            asset_type,
            weights_json@,
        ));
    }

    /// The frequency weights of the asset type.
    pub fn load_scoring_weights(&self, asset_type: Symbol) -> (r: Option<&Vec<u8>>)
        ensures
            r is Some <==> self@.scoring_weights.contains_key(asset_type),
            r matches Some(w) ==> self@.scoring_weights[asset_type] == w@,
    {
        self.scoring_weights.get(asset_type)
    }

    /// Stores the standard of the asset type.
    pub(crate) fn store_standard(&mut self, asset_type: Symbol, definition_hash: Vec<u8>)
        ensures
            final(self)@ == (State {
                standards: old(self)@.standards.insert(asset_type, definition_hash@),
                ..old(self)@
            }),
    {
        self.standards.put(asset_type, definition_hash);
        assert(self@.standards =~= old(self)@.standards.insert(asset_type, definition_hash@));
    }

    /// The standard of the asset type.
    pub fn load_standard(&self, asset_type: Symbol) -> (r: Option<&Vec<u8>>)
        ensures
            r is Some <==> self@.standards.contains_key(asset_type),
            r matches Some(w) ==> self@.standards[asset_type] == w@,
    {
        self.standards.get(asset_type)
    }

    /// Announces `e`.
    pub(crate) fn announce(&mut self, e: Event)
        ensures
            final(self)@ == old(self)@.announce(e@),
    {
        self.events.push(e);
        assert(self@.events =~= old(self)@.events.push(e@));
    }

    /// Announces `n`.
    pub(crate) fn notify(&mut self, n: Notice)
        ensures
            final(self)@ == old(self)@.notify(n),
    {
        self.announce(Event::Plain(n));
    }

    /// Announces the audit entry.
    pub(crate) fn audit(&mut self, admin: Address, timestamp: u64, action: Action)
        ensures
            final(self)@ == old(self)@.audit(admin, timestamp, action),
    {
        self.notify(Notice::Audit { admin, timestamp, action });
    }

    /// Ends the call while the contract is paused.
    pub(crate) fn ensure_not_paused(&self) -> (r: Option<Abort>)
        ensures
            r == self@.pause_check(),
    {
        if self.paused {
            Some(Abort::Error(LifecycleError::Paused))
        } else {
            None
        }
    }

    /// Ends the call unless the contract is open and `who` has signed.
    pub(crate) fn require_entry(&self, call: &Call, who: Address) -> (r: Option<Abort>)
        ensures
            r == self@.entry_check(call@, who),
    {
        match self.ensure_not_paused() {
            Some(e) => Some(e),
            None => call.require_auth(who),
        }
    }

    /// Ends the call unless `admin` is the administrator.
    pub(crate) fn require_admin(&self, admin: Address) -> (r: Option<Abort>)
        ensures
            r == self@.admin_check(admin),
    {
        match &self.config {
            None => Some(Abort::Error(LifecycleError::NotInitialized)),
            Some(c) => if c.admin != admin {
                Some(Abort::Error(LifecycleError::UnauthorizedAdmin))
            } else {
                None
            },
        }
    }

    /// What the registry says of the asset; the call ends where it is not registered.
    pub(crate) fn verify_asset_exists(&self, call: &Call, asset_id: u64) -> (r: Result<
        AssetInfo,
        Abort,
    >)
        ensures
            r == match self@.asset_check(call@, asset_id) {
                Some(e) => Err::<AssetInfo, Abort>(e),
                None => Ok(call@.assets[asset_id]),
            },
    {
        if self.asset_registry.is_none() {
            return Err(Abort::Error(LifecycleError::NotInitialized));
        }
        match call.asset(asset_id) {
            Some(info) => Ok(info),
            None => Err(Abort::Error(LifecycleError::AssetNotFound)),
        }
    }

    /// Ends the call unless `owner` owns the asset.
    pub(crate) fn require_owner(&self, call: &Call, asset_id: u64, owner: Address) -> (r: Option<
        Abort,
    >)
        ensures
            r == self@.owner_check(call@, asset_id, owner),
    {
        match self.verify_asset_exists(call, asset_id) {
            Err(e) => Some(e),
            Ok(info) => if info.owner != owner {
                Some(Abort::Error(LifecycleError::UnauthorizedOwner))
            } else {
                None
            },
        }
    }
}

} // verus!
