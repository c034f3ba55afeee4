//! Who governs the contract: the administrators, their proposals, and the pause.

use vstd::prelude::*;

use crate::arith::monus;
use crate::call::{Call, CallView};
use crate::errors::{Abort, LifecycleError};
use crate::events::{Action, Event, EventView, Notice};
use crate::lists::{copy_list, is_listed, lemma_filter_step, other_than};
use crate::names::{short_symbol, Address, Symbol};
use crate::state::{either, error, outcome, Lifecycle, State};
use crate::types::{Config, ConfigView, TimelockProposal, WasmHash};

verus! {

/// How long, in seconds, a proposal waits before it may be executed: 48 hours.
pub const TIMELOCK_DELAY_SECS: u64 = 172_800;

/// The text `PAUSE`.
pub const PAUSE: u128 = 0x5041555345;

/// The text `UNPAUSE`.
pub const UNPAUSE: u128 = 0x554e5041555345;

/// The text `ADM_XFER`.
pub const ADM_XFER: u128 = 0x41444d5f58464552;

/// The text `UPGRADE`.
pub const UPGRADE: u128 = 0x55504752414445;

impl State {
    /// Why the call ends where the operation has to have been proposed long enough ago and not yet
    /// executed.
    pub open spec fn timelock_check(self, now: u64, op: Symbol) -> Option<Abort> {
        if !self.timelocks.contains_key(op) || self.timelocks[op].executed {
            error(LifecycleError::ProposalNotFound)
        } else if monus(now as int, self.timelocks[op].proposed_at as int) < TIMELOCK_DELAY_SECS {
            error(LifecycleError::TimelockNotExpired)
        } else {
            None
        }
    }

    /// The state in which the operation has been proposed.
    pub open spec fn proposed(self, now: u64, op: Symbol) -> State {
        self.with_timelock(op, TimelockProposal { proposed_at: now, executed: false })
    }

    /// The state in which the proposal of the operation has been executed.
    pub open spec fn executed(self, op: Symbol) -> State {
        self.with_timelock(op, TimelockProposal { executed: true, ..self.timelocks[op] })
    }

    /// Why the call ends where enough administrators have to have signed.
    pub open spec fn quorum_check(self, call: CallView, caller: Address) -> Option<Abort> {
        match self.config {
            None => error(LifecycleError::NotInitialized),
            Some(c) => quorum_check(c, call.signers, caller),
        }
    }
}

/// The first of the addresses that has not signed.
pub open spec fn first_unsigned(list: Seq<Address>, signers: Set<Address>) -> Option<Address>
    decreases list.len(),
{
    if list.len() == 0 {
        None
    } else {
        match first_unsigned(list.drop_last(), signers) {
            Some(a) => Some(a),
            None => if signers.contains(list.last()) {
                None
            } else {
                Some(list.last())
            },
        }
    }
}

/// Whether a single administrator decides.
pub open spec fn single_admin(c: ConfigView) -> bool {
    c.admins.len() == 0 || c.admin_threshold <= 1
}

/// The administrators other than the caller whose signatures are asked for: as many of them, in
/// order, as the threshold leaves after the caller's.
pub open spec fn cosigners(c: ConfigView, caller: Address) -> Seq<Address> {
    let others = c.admins.filter(other_than(caller));
    if others.len() <= c.admin_threshold - 1 {
        others
    } else {
        others.take(c.admin_threshold - 1)
    }
}

/// Why the call ends where enough administrators have to have signed: the caller, who is the
/// administrator or one of them, and the cosigners.
pub open spec fn quorum_check(c: ConfigView, signers: Set<Address>, caller: Address) -> Option<
    Abort,
> {
    if single_admin(c) {
        if c.admin != caller {
            error(LifecycleError::UnauthorizedAdmin)
        } else {
            None
        }
    } else if !c.admins.contains(caller) {
        error(LifecycleError::UnauthorizedAdmin)
    } else {
        match first_unsigned(cosigners(c, caller), signers) {
            Some(a) => Some(Abort::MissingAuth(a)),
            None => if cosigners(c, caller).len() < c.admin_threshold - 1 {
                error(LifecycleError::InsufficientSigners)
            } else {
                None
            },
        }
    }
}

/// Filtering the start of a list gives the start of the filtered list.
proof fn lemma_filter_prefix(s: Seq<Address>, i: int, p: spec_fn(Address) -> bool)
    requires
        0 <= i <= s.len(),
    ensures
        s.take(i).filter(p).len() <= s.filter(p).len(),
        s.take(i).filter(p) == s.filter(p).take(s.take(i).filter(p).len() as int),
    decreases s.len() - i,
{
    if i < s.len() {
        lemma_filter_step(s, i, p);
        lemma_filter_prefix(s, i + 1, p);
        assert(s.take(i).filter(p) =~= s.filter(p).take(s.take(i).filter(p).len() as int));
    } else {
        assert(s.take(i) =~= s);
        assert(s.filter(p).take(s.filter(p).len() as int) =~= s.filter(p));
    }
}

/// The first unsigned address of the start of a list is that of the list.
proof fn lemma_first_unsigned(list: Seq<Address>, n: int, signers: Set<Address>)
    requires
        0 <= n <= list.len(),
        first_unsigned(list.take(n), signers) is Some,
    ensures
        first_unsigned(list, signers) == first_unsigned(list.take(n), signers),
    decreases list.len() - n,
{
    if n < list.len() {
        assert(list.take(n + 1).drop_last() =~= list.take(n));
        lemma_first_unsigned(list, n + 1, signers);
    } else {
        assert(list.take(n) =~= list);
    }
}

/// Ends the call unless enough administrators have signed.
fn require_quorum(call: &Call, c: &Config, caller: Address) -> (r: Option<Abort>)
    ensures
        r == quorum_check(c@, call@.signers, caller),
{
    if c.admins.len() == 0 || c.admin_threshold <= 1 {
        if c.admin != caller {
            return Some(Abort::Error(LifecycleError::UnauthorizedAdmin));
        }
        return None;
    }
    if !is_listed(&c.admins, caller) {
        return Some(Abort::Error(LifecycleError::UnauthorizedAdmin));
    }
    let ghost p = other_than(caller);
    let ghost others = c.admins@.filter(p);
    let ghost asked = cosigners(c@, caller);
    let mut collected: u32 = 1;
    let mut i: usize = 0;
    proof {
        reveal(Seq::filter);
        assert(c.admins@.take(0).filter(p) =~= Seq::empty());
    }
    while i < c.admins.len() && collected < c.admin_threshold
        invariant
            i <= c.admins@.len(),
            p == other_than(caller),
            others == c.admins@.filter(p),
            asked == cosigners(c@, caller),
            1 <= collected <= c.admin_threshold,
            c.admin_threshold > 1,
            c.admins@.contains(caller),
            collected - 1 == c.admins@.take(i as int).filter(p).len(),
            first_unsigned(c.admins@.take(i as int).filter(p), call@.signers) is None,
        decreases c.admins@.len() - i,
    {
        let a: Address = c.admins[i];
        proof {
            lemma_filter_step(c.admins@, i as int, p);
            lemma_filter_prefix(c.admins@, i + 1, p);
            let s = c.admins@.take(i as int).filter(p);
            if a != caller {
                assert(s.push(a).drop_last() =~= s);
                let n = s.push(a).len() as int;
                assert(asked.take(n) =~= others.take(n));
                if !call@.signers.contains(a) {
                    lemma_first_unsigned(asked, n, call@.signers);
                }
            }
        }
        if a != caller {
            if let Some(e) = call.require_auth(a) {
                return Some(e);
            }
            collected = collected + 1;
        }
        i += 1;
    }
    proof {
        lemma_filter_prefix(c.admins@, i as int, p);
        if i == c.admins@.len() {
            assert(c.admins@.take(i as int) =~= c.admins@);
            assert(others.take(others.len() as int) =~= others);
        }
        assert(asked =~= c.admins@.take(i as int).filter(p));
    }
    if collected < c.admin_threshold {
        return Some(Abort::Error(LifecycleError::InsufficientSigners));
    }
    None
}

/// The state in which the pause has been set or lifted, and announced.
pub open spec fn pause_set(s: State, call: CallView, admin: Address, paused: bool) -> State {
    let t = State { paused, ..s };
    if paused {
        t.notify(Notice::Paused { admin }).audit(admin, call.now, Action::Paused)
    } else {
        t.notify(Notice::Unpaused { admin }).audit(admin, call.now, Action::Unpaused)
    }
}

/// What pausing leads to.
pub open spec fn pause_result(s: State, call: CallView, admin: Address) -> Result<State, Abort> {
    match either(call.auth_check(admin), s.quorum_check(call, admin)) {
        Some(e) => Err(e),
        None => Ok(pause_set(s, call, admin, true)),
    }
}

/// What lifting the pause leads to.
pub open spec fn unpause_result(s: State, call: CallView, admin: Address) -> Result<State, Abort> {
    match either(call.auth_check(admin), s.admin_check(admin)) {
        Some(e) => Err(e),
        None => Ok(pause_set(s, call, admin, false)),
    }
}

/// What executing a proposal leads to, where `effect` is what the operation itself leads to.
pub open spec fn execution(
    s: State,
    now: u64,
    op: Symbol,
    effect: spec_fn(State) -> Result<State, Abort>,
) -> Result<State, Abort> {
    match s.timelock_check(now, op) {
        Some(e) => Err(e),
        None => effect(s.executed(op)),
    }
}

/// What proposing to pause leads to.
pub open spec fn propose_pause_result(s: State, call: CallView, admin: Address) -> Result<
    State,
    Abort,
> {
    match either(s.entry_check(call, admin), s.quorum_check(call, admin)) {
        Some(e) => Err(e),
        None => Ok(
            s.proposed(call.now, short_symbol(PAUSE)).notify(Notice::PauseProposed { admin }).audit(
                admin,
                call.now,
                Action::PauseProposed,
            ),
        ),
    }
}

/// What proposing to lift the pause leads to.
pub open spec fn propose_unpause_result(s: State, call: CallView, admin: Address) -> Result<
    State,
    Abort,
> {
    match either(call.auth_check(admin), s.admin_check(admin)) {
        Some(e) => Err(e),
        None => Ok(
            s.proposed(call.now, short_symbol(UNPAUSE)).notify(
                Notice::UnpauseProposed { admin },
            ).audit(admin, call.now, Action::UnpauseProposed),
        ),
    }
}

/// What offering the administrator role leads to.
pub open spec fn propose_admin_result(
    s: State,
    call: CallView,
    admin: Address,
    new_admin: Address,
) -> Result<State, Abort> {
    match either(call.auth_check(admin), s.admin_check(admin)) {
        Some(e) => Err(e),
        None => if s.pending_admin is Some {
            Err(Abort::Error(LifecycleError::PendingAdminAlreadyExists))
        } else {
            Ok(
                State { pending_admin: Some(new_admin), ..s }.proposed(
                    call.now,
                    short_symbol(ADM_XFER),
                ).notify(Notice::AdminProposed { admin, new_admin }).audit(
                    admin,
                    call.now,
                    Action::AdminProposed { new_admin },
                ),
            )
        },
    }
}

/// What accepting the administrator role leads to.
pub open spec fn accept_admin_result(s: State, call: CallView) -> Result<State, Abort> {
    let op = short_symbol(ADM_XFER);
    if s.pending_admin is None {
        Err(Abort::Error(LifecycleError::NotInitialized))
    } else if s.timelock_check(call.now, op) is Some {
        Err(s.timelock_check(call.now, op)->0)
    } else if !call.signers.contains(s.pending_admin->0) {
        Err(Abort::MissingAuth(s.pending_admin->0))
    } else if s.config is None {
        Err(Abort::Error(LifecycleError::NotInitialized))
    } else {
        let admin = s.pending_admin->0;
        Ok(
            State { pending_admin: None, ..s.executed(op) }.with_config(
                ConfigView { admin, ..s.config->0 },
            ).audit(admin, call.now, Action::AdminSet).notify(Notice::AdminSet { admin }),
        )
    }
}

/// What setting the quorum leads to.
pub open spec fn set_admin_quorum_result(
    s: State,
    call: CallView,
    admin: Address,
    new_admins: Seq<Address>,
    threshold: u32,
) -> Result<State, Abort> {
    match either(s.entry_check(call, admin), s.admin_check(admin)) {
        Some(e) => Err(e),
        None => if threshold > new_admins.len() {
            Err(Abort::Error(LifecycleError::InvalidConfig))
        } else {
            Ok(
                s.with_config(
                    ConfigView { admins: new_admins, admin_threshold: threshold, ..s.config->0 },
                ).announce(
                    EventView::QuorumSet { admin, admins: new_admins, threshold },
                ).audit(admin, call.now, Action::QuorumSet { threshold }),
            )
        },
    }
}

/// What proposing an operation by name leads to.
pub open spec fn propose_config_update_result(
    s: State,
    call: CallView,
    admin: Address,
    op: Symbol,
) -> Result<State, Abort> {
    match either(s.entry_check(call, admin), s.admin_check(admin)) {
        Some(e) => Err(e),
        None => Ok(s.proposed(call.now, op)),
    }
}

/// What proposing an upgrade leads to.
pub open spec fn propose_upgrade_result(
    s: State,
    call: CallView,
    admin: Address,
    hash: WasmHash,
) -> Result<State, Abort> {
    match either(s.entry_check(call, admin), s.admin_check(admin)) {
        Some(e) => Err(e),
        None => Ok(
            State {
                pending_upgrade: Some(hash),
                ..s.proposed(call.now, short_symbol(UPGRADE))
            }.notify(Notice::UpgradeProposed { admin, hash, timestamp: call.now }),
        ),
    }
}

/// What executing an upgrade leads to.
pub open spec fn execute_upgrade_result(s: State, call: CallView, admin: Address) -> Result<
    State,
    Abort,
> {
    let op = short_symbol(UPGRADE);
    match either(
        s.entry_check(call, admin),
        either(s.admin_check(admin), s.timelock_check(call.now, op)),
    ) {
        Some(e) => Err(e),
        None => match s.pending_upgrade {
            None => Err(Abort::Error(LifecycleError::ProposalNotFound)),
            Some(hash) => Ok(
                State { pending_upgrade: None, ..s.executed(op) }.notify(
                    Notice::Upgraded { admin, hash },
                ).audit(admin, call.now, Action::Upgrade { hash }),
            ),
        },
    }
}

impl Lifecycle {
    /// Proposes the operation.
    fn store_timelock(&mut self, call: &Call, op: Symbol)
        ensures
            final(self)@ == old(self)@.proposed(call@.now, op),
    {
        self.store_proposal(op, TimelockProposal { proposed_at: call.now, executed: false });
    }

    /// Executes the proposal of the operation, and gives back what it was.
    pub(crate) fn require_timelock_ready(&mut self, call: &Call, op: Symbol) -> (r: Result<
        TimelockProposal,
        Abort,
    >)
        ensures
            match old(self)@.timelock_check(call@.now, op) {
                Some(e) => r == Err::<TimelockProposal, Abort>(e) && final(self)@ == old(self)@,
                None => r == Ok::<TimelockProposal, Abort>(old(self)@.timelocks[op])
                    && final(self)@ == old(self)@.executed(op),
            },
    {
        let p = match self.timelock(op) {
            Some(p) => p,
            None => return Err(Abort::Error(LifecycleError::ProposalNotFound)),
        };
        if p.executed {
            return Err(Abort::Error(LifecycleError::ProposalNotFound));
        }
        if call.now.saturating_sub(p.proposed_at) < TIMELOCK_DELAY_SECS {
            return Err(Abort::Error(LifecycleError::TimelockNotExpired));
        }
        self.store_proposal(op, TimelockProposal { proposed_at: p.proposed_at, executed: true });
        Ok(p)
    }

    /// Takes the execution of a proposal back after a call that has ended without effect.
    pub(crate) fn restore_timelock(
        &mut self,
        r: Result<(), Abort>,
        op: Symbol,
        p: TimelockProposal,
        Ghost(before): Ghost<State>,
    ) -> (result: Result<(), Abort>)
        requires
            before.timelocks.contains_key(op),
            before.timelocks[op] == p,
            r is Err ==> old(self)@ == before.executed(op),
        ensures
            result == r,
            r is Ok ==> final(self)@ == old(self)@,
            r is Err ==> final(self)@ == before,
    {
        if r.is_err() {
            self.store_proposal(op, p);
            assert(self@.timelocks =~= before.timelocks);
        }
        r
    }

    /// Ends the call unless enough administrators have signed.
    pub(crate) fn require_signers(&self, call: &Call, admin: Address) -> (r: Option<Abort>)
        ensures
            r == self@.quorum_check(call@, admin),
    {
        match self.load_config() {
            None => Some(Abort::Error(LifecycleError::NotInitialized)),
            Some(c) => require_quorum(call, &c, admin),
        }
    }

    /// Sets or lifts the pause, and announces it.
    fn apply_pause(&mut self, call: &Call, admin: Address, paused: bool)
        ensures
            final(self)@ == pause_set(old(self)@, call@, admin, paused),
    {
        self.set_paused(paused);
        if paused {
            self.notify(Notice::Paused { admin });
            self.audit(admin, call.now, Action::Paused);
        } else {
            self.notify(Notice::Unpaused { admin });
            self.audit(admin, call.now, Action::Unpaused);
        }
    }

    /// Pauses the contract.
    pub fn pause(&mut self, call: &Call, admin: Address) -> (r: Result<(), Abort>)
        requires
            old(self)@.wf(),
        ensures
            outcome(r, old(self)@, final(self)@, pause_result(old(self)@, call@, admin)),
            final(self)@.wf(),
    {
        if let Some(e) = call.require_auth(admin) {
            return Err(e);
        }
        if let Some(e) = self.require_signers(call, admin) {
            return Err(e);
        }
        self.apply_pause(call, admin, true);
        Ok(())
    }

    /// Lifts the pause.
    pub fn unpause(&mut self, call: &Call, admin: Address) -> (r: Result<(), Abort>)
        requires
            old(self)@.wf(),
        ensures
            outcome(r, old(self)@, final(self)@, unpause_result(old(self)@, call@, admin)),
            final(self)@.wf(),
    {
        if let Some(e) = call.require_auth(admin) {
            return Err(e);
        }
        if let Some(e) = self.require_admin(admin) {
            return Err(e);
        }
        self.apply_pause(call, admin, false);
        Ok(())
    }

    /// Proposes to pause the contract.
    pub fn propose_pause(&mut self, call: &Call, admin: Address) -> (r: Result<(), Abort>)
        requires
            old(self)@.wf(),
        ensures
            outcome(r, old(self)@, final(self)@, propose_pause_result(old(self)@, call@, admin)),
            final(self)@.wf(),
    {
        if let Some(e) = self.require_entry(call, admin) {
            return Err(e);
        }
        if let Some(e) = self.require_signers(call, admin) {
            return Err(e);
        }
        self.store_timelock(call, Symbol::short(PAUSE));
        self.notify(Notice::PauseProposed { admin });
        self.audit(admin, call.now, Action::PauseProposed);
        Ok(())
    }

    /// Executes the proposal to pause the contract.
    pub fn execute_pause(&mut self, call: &Call, admin: Address) -> (r: Result<(), Abort>)
        requires
            old(self)@.wf(),
        ensures
            outcome(
                r,
                old(self)@,
                final(self)@,
                execution(
                    old(self)@,
                    call@.now,
                    short_symbol(PAUSE),
                    |s: State| pause_result(s, call@, admin),
                ),
            ),
            final(self)@.wf(),
    {
        let ghost before = self@;
        let op = Symbol::short(PAUSE);
        let p = match self.require_timelock_ready(call, op) {
            Ok(p) => p,
            Err(e) => return Err(e),
        };
        let r = self.pause(call, admin);
        self.restore_timelock(r, op, p, Ghost(before))
    }

    /// Proposes to lift the pause.
    pub fn propose_unpause(&mut self, call: &Call, admin: Address) -> (r: Result<(), Abort>)
        requires
            old(self)@.wf(),
        ensures
            outcome(r, old(self)@, final(self)@, propose_unpause_result(old(self)@, call@, admin)),
            final(self)@.wf(),
    {
        if let Some(e) = call.require_auth(admin) {
            return Err(e);
        }
        if let Some(e) = self.require_admin(admin) {
            return Err(e);
        }
        self.store_timelock(call, Symbol::short(UNPAUSE));
        self.notify(Notice::UnpauseProposed { admin });
        self.audit(admin, call.now, Action::UnpauseProposed);
        Ok(())
    }

    /// Executes the proposal to lift the pause.
    pub fn execute_unpause(&mut self, call: &Call, admin: Address) -> (r: Result<(), Abort>)
        requires
            old(self)@.wf(),
        ensures
            outcome(
                r,
                old(self)@,
                final(self)@,
                execution(
                    old(self)@,
                    call@.now,
                    short_symbol(UNPAUSE),
                    |s: State| unpause_result(s, call@, admin),
                ),
            ),
            final(self)@.wf(),
    {
        let ghost before = self@;
        let op = Symbol::short(UNPAUSE);
        let p = match self.require_timelock_ready(call, op) {
            Ok(p) => p,
            Err(e) => return Err(e),
        };
        let r = self.unpause(call, admin);
        self.restore_timelock(r, op, p, Ghost(before))
    }

    /// Offers the administrator role to another address.
    pub fn propose_admin(&mut self, call: &Call, admin: Address, new_admin: Address) -> (r: Result<
        (),
        Abort,
    >)
        requires
            old(self)@.wf(),
        ensures
            outcome(
                r,
                old(self)@,
                final(self)@,
                propose_admin_result(old(self)@, call@, admin, new_admin),
            ),
            final(self)@.wf(),
    {
        if let Some(e) = call.require_auth(admin) {
            return Err(e);
        }
        if let Some(e) = self.require_admin(admin) {
            return Err(e);
        }
        if self.pending_admin().is_some() {
            return Err(Abort::Error(LifecycleError::PendingAdminAlreadyExists));
        }
        self.set_pending_admin(Some(new_admin));
        self.store_timelock(call, Symbol::short(ADM_XFER));
        self.notify(Notice::AdminProposed { admin, new_admin });
        self.audit(admin, call.now, Action::AdminProposed { new_admin });
        Ok(())
    }

    /// Accepts the administrator role that has been offered.
    pub fn accept_admin(&mut self, call: &Call) -> (r: Result<(), Abort>)
        requires
            old(self)@.wf(),
        ensures
            outcome(r, old(self)@, final(self)@, accept_admin_result(old(self)@, call@)),
            final(self)@.wf(),
    {
        let admin = match self.pending_admin() {
            Some(a) => a,
            None => return Err(Abort::Error(LifecycleError::NotInitialized)),
        };
        let ghost before = self@;
        let op = Symbol::short(ADM_XFER);
        let p = match self.require_timelock_ready(call, op) {
            Ok(p) => p,
            Err(e) => return Err(e),
        };
        let r = self.take_admin_role(call, admin);
        self.restore_timelock(r, op, p, Ghost(before))
    }

    /// Makes the address to which the role is offered the administrator.
    fn take_admin_role(&mut self, call: &Call, admin: Address) -> (r: Result<(), Abort>)
        requires
            old(self)@.wf(),
        ensures
            r is Err ==> final(self)@ == old(self)@,
            final(self)@.wf(),
            if !call@.signers.contains(admin) {
                r == Err::<(), Abort>(Abort::MissingAuth(admin))
            } else if old(self)@.config is None {
                r == Err::<(), Abort>(Abort::Error(LifecycleError::NotInitialized))
            } else {
                r is Ok && final(self)@ == State { pending_admin: None, ..old(
                    self,
                )@ }.with_config(ConfigView { admin, ..old(self)@.config->0 }).audit(
                    admin,
                    call@.now,
                    Action::AdminSet,
                ).notify(Notice::AdminSet { admin })
            },
    {
        if let Some(e) = call.require_auth(admin) {
            return Err(e);
        }
        let mut config = match self.load_config() {
            Some(c) => c,
            None => return Err(Abort::Error(LifecycleError::NotInitialized)),
        };
        config.admin = admin;
        self.store_config(config);
        self.set_pending_admin(None);
        self.audit(admin, call.now, Action::AdminSet);
        self.notify(Notice::AdminSet { admin });
        Ok(())
    }

    /// Sets the administrators of whom `threshold` have to sign critical operations.
    pub fn set_admin_quorum(
        &mut self,
        call: &Call,
        admin: Address,
        new_admins: Vec<Address>,
        threshold: u32,
    ) -> (r: Result<(), Abort>)
        requires
            old(self)@.wf(),
        ensures
            outcome(
                r,
                old(self)@,
                final(self)@,
                set_admin_quorum_result(old(self)@, call@, admin, new_admins@, threshold),
            ),
            final(self)@.wf(),
    {
        if let Some(e) = self.require_entry(call, admin) {
            return Err(e);
        }
        if let Some(e) = self.require_admin(admin) {
            return Err(e);
        }
        if threshold > 0 && threshold as u64 > new_admins.len() as u64 {
            return Err(Abort::Error(LifecycleError::InvalidConfig));
        }
        let mut config = match self.load_config() {
            Some(c) => c,
            None => return Err(Abort::Error(LifecycleError::NotInitialized)),
        };
        config.admins = copy_list(&new_admins);
        config.admin_threshold = threshold;
        self.store_config(config);
        self.announce(Event::QuorumSet { admin, admins: new_admins, threshold });
        self.audit(admin, call.now, Action::QuorumSet { threshold });
        Ok(())
    }

    /// Proposes a change of the configuration.
    pub fn propose_config_update(&mut self, call: &Call, admin: Address, op: Symbol) -> (r: Result<
        (),
        Abort,
    >)
        requires
            old(self)@.wf(),
        ensures
            outcome(
                r,
                old(self)@,
                final(self)@,
                propose_config_update_result(old(self)@, call@, admin, op),
            ),
            final(self)@.wf(),
    {
        if let Some(e) = self.require_entry(call, admin) {
            return Err(e);
        }
        if let Some(e) = self.require_admin(admin) {
            return Err(e);
        }
        self.store_timelock(call, op);
        Ok(())
    }

    /// Proposes an upgrade of the contract's code.
    pub fn propose_upgrade(&mut self, call: &Call, admin: Address, hash: WasmHash) -> (r: Result<
        (),
        Abort,
    >)
        requires
            old(self)@.wf(),
        ensures
            outcome(
                r,
                old(self)@,
                final(self)@,
                propose_upgrade_result(old(self)@, call@, admin, hash),
            ),
            final(self)@.wf(),
    {
        if let Some(e) = self.require_entry(call, admin) {
            return Err(e);
        }
        if let Some(e) = self.require_admin(admin) {
            return Err(e);
        }
        self.store_timelock(call, Symbol::short(UPGRADE));
        self.set_pending_upgrade(Some(hash));
        self.notify(Notice::UpgradeProposed { admin, hash, timestamp: call.now });
        Ok(())
    }

    /// Executes the proposed upgrade, and gives back the code that the contract is to have.
    pub fn execute_upgrade(&mut self, call: &Call, admin: Address) -> (r: Result<WasmHash, Abort>)
        requires
            old(self)@.wf(),
        ensures
            match execute_upgrade_result(old(self)@, call@, admin) {
                Ok(s) => r == Ok::<WasmHash, Abort>(old(self)@.pending_upgrade->0)
                    && final(self)@ == s,
                Err(e) => r == Err::<WasmHash, Abort>(e) && final(self)@ == old(self)@,
            },
            final(self)@.wf(),
    {
        if let Some(e) = self.require_entry(call, admin) {
            return Err(e);
        }
        if let Some(e) = self.require_admin(admin) {
            return Err(e);
        }
        let ghost before = self@;
        let op = Symbol::short(UPGRADE);
        let p = match self.require_timelock_ready(call, op) {
            Ok(p) => p,
            Err(e) => return Err(e),
        };
        let hash = match self.pending_upgrade() {
            Some(hash) => hash,
            None => {
                let r = Err(Abort::Error(LifecycleError::ProposalNotFound));
                let _ = self.restore_timelock(r, op, p, Ghost(before));
                return Err(Abort::Error(LifecycleError::ProposalNotFound));
            },
        };
        self.set_pending_upgrade(None);
        self.notify(Notice::Upgraded { admin, hash });
        self.audit(admin, call.now, Action::Upgrade { hash });
        Ok(hash)
    }
}

} // verus!
