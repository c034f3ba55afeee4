use lifecycle::call::{AssetInfo, Call, CredentialStatus, EngineerInfo};
use lifecycle::errors::{Abort, LifecycleError};
use lifecycle::events::{Action, Event, Notice};
use lifecycle::names::{Address, Symbol};
use lifecycle::state::Lifecycle;
use lifecycle::table::Table;
use lifecycle::governance::TIMELOCK_DELAY_SECS;
use lifecycle::types::{Priority, WasmHash};
use soroban_sdk::{Env, String};

const ADMIN: u128 = 1;
const OWNER: u128 = 2;
const ENGINEER: u128 = 3;
const ASSET: u64 = 1;

fn addr(n: u128) -> Address {
    Address { is_contract: false, head: 0, tail: n }
}

fn registry(n: u128) -> Address {
    Address { is_contract: true, head: 0, tail: n }
}

fn sym(text: &str) -> Symbol {
    Symbol::new(text).unwrap()
}

fn fails<T>(r: Result<T, Abort>, e: LifecycleError) -> bool {
    matches!(r, Err(Abort::Error(x)) if x == e)
}

/// The contract, the time, what the registries know, and who signs.
struct World {
    env: Env,
    l: Lifecycle,
    now: u64,
    assets: Vec<(u64, AssetInfo)>,
    engineers: Vec<(Address, CredentialStatus, u32)>,
    signers: Vec<Address>,
}

#[allow(dead_code)]
impl World {
    /// A contract that is not initialized, with an asset and an engineer of reputation 500, for
    /// whom everyone signs.
    fn raw() -> World {
        let mut signers: Vec<Address> = (1..40).map(addr).collect();
        signers.push(registry(100));
        World {
            env: Env::default(),
            l: Lifecycle::new(),
            now: 1_000,
            assets: vec![(
                ASSET,
                AssetInfo {
                    owner: addr(OWNER),
                    asset_type: sym("GENSET"),
                    decommissioned: false,
                    deprecated: false,
                },
            )],
            engineers: vec![(addr(ENGINEER), CredentialStatus::Valid, 500)],
            signers,
        }
    }

    /// An initialized contract, where the engineer is authorized.
    fn new(max_history: u32) -> World {
        let mut w = World::raw();
        let call = w.call();
        w.l.initialize(&call, addr(ADMIN), registry(100), registry(101), addr(ADMIN), max_history)
            .unwrap();
        w.l.authorize_engineer(&call, addr(OWNER), ASSET, addr(ENGINEER)).unwrap();
        w
    }

    fn text(&self, s: &str) -> String {
        String::from_str(&self.env, s)
    }

    fn call(&self) -> Call {
        let mut assets = Table::new();
        for (id, info) in &self.assets {
            assets.put(*id, *info);
        }
        let mut engineers = Table::new();
        for (a, status, reputation) in &self.engineers {
            let specializations = vec![sym("GENSET"), sym("TURBINE")];
            engineers.put(
                *a,
                EngineerInfo { status: *status, reputation: *reputation, specializations },
            );
        }
        Call { now: self.now, signers: self.signers.clone(), assets, engineers }
    }

    fn add_asset(&mut self, id: u64) {
        let info = AssetInfo {
            owner: addr(OWNER),
            asset_type: sym("GENSET"),
            decommissioned: false,
            deprecated: false,
        };
        self.assets.push((id, info));
        let call = self.call();
        self.l.authorize_engineer(&call, addr(OWNER), id, addr(ENGINEER)).unwrap();
    }

    fn try_submit(&mut self, id: u64, task: &str, notes: &str) -> Result<(), Abort> {
        let call = self.call();
        let text = self.text(notes);
        self.l.submit_maintenance(
            &call,
            id,
            sym(task),
            Priority::Low,
            &text,
            addr(ENGINEER),
            None,
        )
    }

    fn submit(&mut self, id: u64, task: &str) {
        self.try_submit(id, task, "notes").unwrap();
    }

    fn submit_times(&mut self, id: u64, task: &str, n: u32) {
        for _ in 0..n {
            self.submit(id, task);
        }
    }

    fn history_len(&self, id: u64) -> usize {
        self.l.get_maintenance_history(&self.call(), id).unwrap().len()
    }

    fn recency(&self, id: u64) -> u32 {
        self.l.compute_decay(&self.call(), id)
    }

    fn score(&self, id: u64) -> u32 {
        self.l.get_collateral_score(&self.call(), id).unwrap()
    }

    fn eligible(&self, id: u64) -> bool {
        self.l.is_collateral_eligible(&self.call(), id).unwrap()
    }

    fn has_event(&self, n: Notice) -> bool {
        self.l.events().iter().any(|e| matches!(e, Event::Plain(x) if *x == n))
    }
}

#[test]
fn test_admin_timelock_cannot_be_bypassed() {
    let mut w = World::new(0);
    let before = w.l.get_config().unwrap().score_increment;
    assert_ne!(before, 42);
    let call = w.call();
    w.l.propose_config_update(&call, addr(ADMIN), sym("SC_INC")).unwrap();
    let r = w.l.execute_update_score_increment(&call, addr(ADMIN), 42);
    assert!(fails(r, LifecycleError::TimelockNotExpired));
    assert_eq!(w.l.get_config().unwrap().score_increment, before);
    w.now += TIMELOCK_DELAY_SECS + 1;
    let call = w.call();
    w.l.execute_update_score_increment(&call, addr(ADMIN), 42).unwrap();
    assert_eq!(w.l.get_config().unwrap().score_increment, 42);
}

#[test]
fn test_admin_timelock_rejects_execution_one_second_before_expiry() {
    let mut w = World::new(0);
    let call = w.call();
    w.l.propose_config_update(&call, addr(ADMIN), sym("SC_INC")).unwrap();
    w.now += TIMELOCK_DELAY_SECS - 1;
    let call = w.call();
    let r = w.l.execute_update_score_increment(&call, addr(ADMIN), 7);
    assert!(fails(r, LifecycleError::TimelockNotExpired));
}

#[test]
fn test_admin_transfer_timelock_rejects_accept_before_expiry() {
    let mut w = World::new(0);
    let call = w.call();
    w.l.propose_admin(&call, addr(ADMIN), addr(9)).unwrap();
    assert!(fails(w.l.accept_admin(&call), LifecycleError::TimelockNotExpired));
    assert_eq!(w.l.get_config().unwrap().admin, addr(ADMIN));
}

#[test]
fn test_admin_transfer_timelock_allows_accept_after_expiry() {
    let mut w = World::new(0);
    let call = w.call();
    w.l.propose_admin(&call, addr(ADMIN), addr(9)).unwrap();
    w.now += TIMELOCK_DELAY_SECS + 1;
    let call = w.call();
    w.l.accept_admin(&call).unwrap();
    assert_eq!(w.l.get_config().unwrap().admin, addr(9));
    assert_eq!(w.l.pending_admin(), None);
    assert!(w.has_event(Notice::AdminSet { admin: addr(9) }));
}

#[test]
fn test_admin_transfer_rejects_non_admin_propose() {
    let mut w = World::new(0);
    let call = w.call();
    let r = w.l.propose_admin(&call, addr(8), addr(9));
    assert!(r.is_err());
    assert_eq!(w.l.get_config().unwrap().admin, addr(ADMIN));
}

#[test]
fn test_pause_timelock_cannot_be_bypassed() {
    let mut w = World::new(0);
    let call = w.call();
    w.l.propose_pause(&call, addr(ADMIN)).unwrap();
    let r = w.l.execute_pause(&call, addr(ADMIN));
    assert!(fails(r, LifecycleError::TimelockNotExpired));
    assert!(!w.l.is_paused());
}

#[test]
fn test_pause_timelock_allows_execute_after_expiry() {
    let mut w = World::new(0);
    let call = w.call();
    w.l.propose_pause(&call, addr(ADMIN)).unwrap();
    w.now += TIMELOCK_DELAY_SECS + 1;
    let call = w.call();
    w.l.execute_pause(&call, addr(ADMIN)).unwrap();
    assert!(w.l.is_paused());
}

#[test]
fn test_unpause_timelock_cannot_be_bypassed() {
    let mut w = World::new(0);
    let call = w.call();
    w.l.propose_pause(&call, addr(ADMIN)).unwrap();
    w.now += TIMELOCK_DELAY_SECS + 1;
    let call = w.call();
    w.l.execute_pause(&call, addr(ADMIN)).unwrap();
    assert!(w.l.is_paused());
    w.l.propose_unpause(&call, addr(ADMIN)).unwrap();
    let r = w.l.execute_unpause(&call, addr(ADMIN));
    assert!(fails(r, LifecycleError::TimelockNotExpired));
    assert!(w.l.is_paused());
}

#[test]
fn test_unpause_timelock_allows_execute_after_expiry() {
    let mut w = World::new(0);
    let call = w.call();
    w.l.propose_pause(&call, addr(ADMIN)).unwrap();
    w.now += TIMELOCK_DELAY_SECS + 1;
    let call = w.call();
    w.l.execute_pause(&call, addr(ADMIN)).unwrap();
    assert!(w.l.is_paused());
    w.l.propose_unpause(&call, addr(ADMIN)).unwrap();
    w.now += TIMELOCK_DELAY_SECS + 1;
    let call = w.call();
    w.l.execute_unpause(&call, addr(ADMIN)).unwrap();
    assert!(!w.l.is_paused());
}

#[test]
fn proposals_are_executed_once() {
    let mut w = World::new(0);
    let call = w.call();
    let r = w.l.execute_update_max_history(&call, addr(ADMIN), 7);
    assert!(fails(r, LifecycleError::ProposalNotFound));
    w.l.propose_config_update(&call, addr(ADMIN), sym("MAX_HIST")).unwrap();
    w.now += TIMELOCK_DELAY_SECS;
    let call = w.call();
    w.l.execute_update_max_history(&call, addr(ADMIN), 7).unwrap();
    assert_eq!(w.l.get_config().unwrap().max_history, 7);
    w.now += TIMELOCK_DELAY_SECS;
    let call = w.call();
    let r = w.l.execute_update_max_history(&call, addr(ADMIN), 8);
    assert!(fails(r, LifecycleError::ProposalNotFound));
}

#[test]
fn a_refused_execution_leaves_the_proposal_open() {
    let mut w = World::new(0);
    let call = w.call();
    w.l.propose_config_update(&call, addr(ADMIN), sym("ELIG")).unwrap();
    w.now += TIMELOCK_DELAY_SECS;
    let call = w.call();
    let r = w.l.execute_update_eligibility(&call, addr(ADMIN), 0);
    assert!(fails(r, LifecycleError::InvalidConfig));
    w.l.execute_update_eligibility(&call, addr(ADMIN), 60).unwrap();
    assert_eq!(w.l.get_config().unwrap().eligibility_threshold, 60);
}

#[test]
fn every_setting_can_be_proposed_and_executed() {
    let mut w = World::new(0);
    let call = w.call();
    for op in ["DEC_CFG", "MAX_NOTE", "AST_REG", "ENG_REG"] {
        w.l.propose_config_update(&call, addr(ADMIN), sym(op)).unwrap();
    }
    w.now += TIMELOCK_DELAY_SECS;
    let call = w.call();
    w.l.execute_update_decay_config(&call, addr(ADMIN), 3, 60).unwrap();
    w.l.execute_update_max_notes_length(&call, addr(ADMIN), 10).unwrap();
    w.l.execute_update_asset_registry(&call, addr(ADMIN), registry(200)).unwrap();
    w.l.execute_update_engineer_registry(&call, addr(ADMIN), registry(201)).unwrap();
    let c = w.l.get_config().unwrap();
    assert_eq!((c.decay_rate, c.decay_interval, c.max_notes_length), (3, 60, 10));
    assert_eq!(w.l.get_asset_registry(), Ok(registry(200)));
    assert_eq!(w.l.get_engineer_registry(), Ok(registry(201)));
}

#[test]
fn test_initialize_twice_panics_with_already_initialized() {
    let mut w = World::new(0);
    let call = w.call();
    let r = w.l.initialize(&call, addr(ADMIN), registry(1), registry(2), addr(ADMIN), 0);
    assert!(fails(r, LifecycleError::AlreadyInitialized));
}

#[test]
fn test_initialize_rejects_same_registry_addresses() {
    let mut w = World::raw();
    let call = w.call();
    let r = w.l.initialize(&call, addr(ADMIN), registry(1), registry(1), addr(ADMIN), 0);
    assert!(fails(r, LifecycleError::InvalidConfig));
    let r = w.l.initialize(&call, addr(ADMIN), registry(1), registry(2), addr(ADMIN), 10_001);
    assert!(fails(r, LifecycleError::InvalidConfig));
}

#[test]
fn test_initialize_rejects_non_deployer() {
    let mut w = World::raw();
    let call = w.call();
    let r = w.l.initialize(&call, addr(77), registry(1), registry(2), addr(ADMIN), 0);
    assert_eq!(r, Err(Abort::MissingAuth(addr(77))));
}

#[test]
fn initialization_sets_the_defaults() {
    let w = World::new(0);
    let c = w.l.get_config().unwrap();
    assert_eq!(c.max_history, 200);
    assert_eq!(c.score_increment, 5);
    assert_eq!((c.decay_rate, c.decay_interval), (5, 2_592_000));
    assert_eq!(c.eligibility_threshold, 50);
    assert_eq!(c.max_notes_length, 256);
    assert_eq!(c.max_submissions_per_hour, 0);
    assert_eq!(World::new(17).l.get_config().unwrap().max_history, 17);
    assert!(w.has_event(Notice::Initialized {
        asset_registry: registry(100),
        engineer_registry: registry(101),
        admin: addr(ADMIN),
    }));
}

#[test]
fn test_get_config_before_init_returns_structured_error() {
    let mut w = World::raw();
    let call = w.call();
    assert!(fails(w.l.get_config(), LifecycleError::NotInitialized));
    assert!(fails(w.l.get_asset_registry(), LifecycleError::NotInitialized));
    assert!(fails(w.l.get_engineer_registry(), LifecycleError::NotInitialized));
    assert!(fails(w.l.get_collateral_score(&call, ASSET), LifecycleError::NotInitialized));
    let r = w.l.update_asset_registry(&call, addr(ADMIN), registry(5));
    assert!(fails(r, LifecycleError::NotInitialized));
    let r = w.l.update_engineer_registry(&call, addr(ADMIN), registry(5));
    assert!(fails(r, LifecycleError::NotInitialized));
}

#[test]
fn settings_are_set_and_announced() {
    let mut w = World::new(0);
    let call = w.call();
    w.l.update_score_increment(&call, addr(ADMIN), 8).unwrap();
    assert!(w.has_event(Notice::ScoreIncrementUpdated { old_value: 5, new_value: 8 }));
    assert!(w.has_event(Notice::Audit {
        admin: addr(ADMIN),
        timestamp: 1_000,
        action: Action::ScoreIncrement { value: 8 },
    }));
    w.l.update_decay_config(&call, addr(ADMIN), 2, 100).unwrap();
    assert!(w.has_event(Notice::DecayUpdated {
        old_rate: 5,
        new_rate: 2,
        old_interval: 2_592_000,
        new_interval: 100,
    }));
    w.l.update_eligibility_threshold(&call, addr(ADMIN), 30).unwrap();
    w.l.set_eligibility_threshold(&call, addr(ADMIN), 40).unwrap();
    w.l.update_max_history(&call, addr(ADMIN), 300).unwrap();
    w.l.update_max_notes_length(&call, addr(ADMIN), 512).unwrap();
    w.l.set_max_notes_length(&call, addr(ADMIN), 128).unwrap();
    w.l.set_max_submissions_per_hour(&call, addr(ADMIN), 4).unwrap();
    assert!(w.has_event(Notice::MaxHistoryUpdated { admin: addr(ADMIN), value: 300 }));
    let c = w.l.get_config().unwrap();
    assert_eq!(c.score_increment, 8);
    assert_eq!((c.decay_rate, c.decay_interval), (2, 100));
    assert_eq!(c.eligibility_threshold, 40);
    assert_eq!(c.max_history, 300);
    assert_eq!(c.max_notes_length, 128);
    assert_eq!(c.max_submissions_per_hour, 4);
}

#[test]
fn zero_settings_are_refused() {
    let mut w = World::new(0);
    let call = w.call();
    let a = addr(ADMIN);
    let e = LifecycleError::InvalidConfig;
    assert!(fails(w.l.update_score_increment(&call, a, 0), e));
    assert!(fails(w.l.update_decay_config(&call, a, 0, 5), e));
    assert!(fails(w.l.update_decay_config(&call, a, 5, 0), e));
    assert!(fails(w.l.update_eligibility_threshold(&call, a, 0), e));
    assert!(fails(w.l.set_eligibility_threshold(&call, a, 0), e));
    assert!(fails(w.l.update_max_history(&call, a, 0), e));
    assert!(fails(w.l.update_max_notes_length(&call, a, 0), e));
    assert!(fails(w.l.set_max_notes_length(&call, a, 0), e));
    assert!(fails(w.l.set_task_weight(&call, a, sym("OIL_CHG"), 0), e));
    assert!(w.l.set_max_submissions_per_hour(&call, a, 0).is_ok());
}

#[test]
fn others_cannot_change_settings() {
    let mut w = World::new(0);
    let call = w.call();
    let x = addr(8);
    let e = LifecycleError::UnauthorizedAdmin;
    assert!(fails(w.l.update_score_increment(&call, x, 6), e));
    assert!(fails(w.l.update_decay_config(&call, x, 5, 5), e));
    assert!(fails(w.l.update_eligibility_threshold(&call, x, 0), e));
    assert!(fails(w.l.update_max_history(&call, x, 500), e));
    assert!(fails(w.l.set_task_weight(&call, x, sym("OIL_CHG"), 1), e));
    assert!(fails(w.l.update_asset_registry(&call, x, registry(5)), e));
    assert!(fails(w.l.unpause(&call, x), e));
    assert!(fails(w.l.pause(&call, x), e));
    assert!(fails(w.l.reset_score(&call, x, ASSET), e));
    assert!(fails(w.l.propose_upgrade(&call, x, WasmHash { head: 1, tail: 2 }), e));
}

#[test]
fn registries_are_checked() {
    let mut w = World::new(0);
    let call = w.call();
    let a = addr(ADMIN);
    let zero = registry(0);
    assert!(fails(w.l.update_asset_registry(&call, a, zero), LifecycleError::ZeroAddress));
    assert!(fails(w.l.update_engineer_registry(&call, a, zero), LifecycleError::ZeroAddress));
    let same = LifecycleError::SameRegistryAddress;
    assert!(fails(w.l.update_asset_registry(&call, a, registry(101)), same));
    assert!(fails(w.l.update_engineer_registry(&call, a, registry(100)), same));
    w.l.update_asset_registry(&call, a, registry(102)).unwrap();
    assert!(w.has_event(Notice::AssetRegistrySet { admin: a, registry: registry(102) }));
}

#[test]
fn test_pause_affects_all_state_changes_in_lifecycle() {
    let mut w = World::new(0);
    w.submit(ASSET, "OIL_CHG");
    let call = w.call();
    w.l.pause(&call, addr(ADMIN)).unwrap();
    assert!(w.has_event(Notice::Paused { admin: addr(ADMIN) }));
    let p = LifecycleError::Paused;
    assert!(fails(w.try_submit(ASSET, "OIL_CHG", "notes"), p));
    assert!(fails(w.l.decay_score(&call, ASSET), p));
    assert!(fails(w.l.reset_score(&call, addr(ADMIN), ASSET), p));
    assert!(fails(w.l.update_max_history(&call, addr(ADMIN), 5), p));
    assert!(fails(w.l.prune_asset_history(&call, addr(ADMIN), ASSET), p));
    assert!(fails(w.l.purge_asset_data(&call, addr(ADMIN), ASSET), p));
    assert!(fails(w.l.authorize_engineer(&call, addr(OWNER), ASSET, addr(4)), p));
    assert!(fails(w.l.propose_pause(&call, addr(ADMIN)), p));
    w.l.unpause(&call, addr(ADMIN)).unwrap();
    w.submit(ASSET, "OIL_CHG");
    assert_eq!(w.history_len(ASSET), 2);
}

#[test]
fn test_propose_and_accept_admin_transfer() {
    let mut w = World::new(0);
    let call = w.call();
    w.l.propose_admin(&call, addr(ADMIN), addr(9)).unwrap();
    assert_eq!(w.l.get_config().unwrap().admin, addr(ADMIN));
    let r = w.l.propose_admin(&call, addr(ADMIN), addr(10));
    assert!(fails(r, LifecycleError::PendingAdminAlreadyExists));
    w.now += TIMELOCK_DELAY_SECS;
    w.signers.retain(|a| *a != addr(9));
    let call = w.call();
    assert_eq!(w.l.accept_admin(&call), Err(Abort::MissingAuth(addr(9))));
    w.signers.push(addr(9));
    let call = w.call();
    w.l.accept_admin(&call).unwrap();
    assert_eq!(w.l.get_config().unwrap().admin, addr(9));
    assert!(fails(w.l.unpause(&call, addr(ADMIN)), LifecycleError::UnauthorizedAdmin));
    assert!(fails(w.l.accept_admin(&call), LifecycleError::NotInitialized));
}

#[test]
fn test_execute_upgrade_after_timelock_succeeds() {
    let mut w = World::new(0);
    let hash = WasmHash { head: 1, tail: 2 };
    let call = w.call();
    let r = w.l.execute_upgrade(&call, addr(ADMIN));
    assert!(fails(r, LifecycleError::ProposalNotFound));
    w.l.propose_upgrade(&call, addr(ADMIN), hash).unwrap();
    let r = w.l.execute_upgrade(&call, addr(ADMIN));
    assert!(fails(r, LifecycleError::TimelockNotExpired));
    w.now += TIMELOCK_DELAY_SECS;
    let call = w.call();
    assert_eq!(w.l.execute_upgrade(&call, addr(ADMIN)), Ok(hash));
    assert!(w.has_event(Notice::Upgraded { admin: addr(ADMIN), hash }));
    let r = w.l.execute_upgrade(&call, addr(ADMIN));
    assert!(fails(r, LifecycleError::ProposalNotFound));
}

#[test]
fn test_quorum_pause_requires_all_threshold_signers() {
    let mut w = World::new(0);
    let call = w.call();
    w.l.set_admin_quorum(&call, addr(ADMIN), vec![addr(ADMIN), addr(20), addr(21)], 2).unwrap();
    w.signers.retain(|a| *a != addr(20));
    let call = w.call();
    assert_eq!(w.l.pause(&call, addr(ADMIN)), Err(Abort::MissingAuth(addr(20))));
    w.signers.push(addr(20));
    w.signers.retain(|a| *a != addr(21));
    let call = w.call();
    w.l.pause(&call, addr(ADMIN)).unwrap();
    assert!(w.l.is_paused());
}

#[test]
fn test_quorum_reset_score_requires_threshold_signers() {
    let mut w = World::new(0);
    w.submit(ASSET, "OIL_CHG");
    assert!(w.score(ASSET) > 0);
    let call = w.call();
    w.l.set_admin_quorum(&call, addr(ADMIN), vec![addr(ADMIN), addr(20)], 2).unwrap();
    w.l.reset_score(&call, addr(ADMIN), ASSET).unwrap();
    assert_eq!(w.score(ASSET), 0);
}

#[test]
fn test_quorum_non_member_caller_rejected() {
    let mut w = World::new(0);
    let call = w.call();
    w.l.set_admin_quorum(&call, addr(ADMIN), vec![addr(ADMIN), addr(20)], 2).unwrap();
    assert!(fails(w.l.pause(&call, addr(30)), LifecycleError::UnauthorizedAdmin));
}

#[test]
fn quorum_counts_entries_other_than_the_caller() {
    let mut w = World::new(0);
    let call = w.call();
    w.l.set_admin_quorum(&call, addr(ADMIN), vec![addr(ADMIN), addr(ADMIN)], 2).unwrap();
    assert!(fails(w.l.pause(&call, addr(ADMIN)), LifecycleError::InsufficientSigners));
}

#[test]
fn test_set_admin_quorum_threshold_exceeds_admins_rejected() {
    let mut w = World::new(0);
    let call = w.call();
    let r = w.l.set_admin_quorum(&call, addr(ADMIN), vec![addr(ADMIN), addr(20)], 3);
    assert!(fails(r, LifecycleError::InvalidConfig));
    let r = w.l.set_admin_quorum(&call, addr(20), vec![addr(20)], 1);
    assert!(fails(r, LifecycleError::UnauthorizedAdmin));
}

#[test]
fn test_revert_to_single_admin_by_clearing_quorum() {
    let mut w = World::new(0);
    let call = w.call();
    w.l.set_admin_quorum(&call, addr(ADMIN), vec![addr(ADMIN), addr(20)], 2).unwrap();
    w.l.set_admin_quorum(&call, addr(ADMIN), vec![], 0).unwrap();
    let c = w.l.get_config().unwrap();
    assert_eq!((c.admin_threshold, c.admins.len()), (0, 0));
    w.l.pause(&call, addr(ADMIN)).unwrap();
    assert!(w.l.is_paused());
}
