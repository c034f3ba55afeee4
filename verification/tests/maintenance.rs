use lifecycle::call::{AssetInfo, Call, CredentialStatus, EngineerInfo};
use lifecycle::errors::{Abort, LifecycleError};
use lifecycle::events::{Event, Notice};
use lifecycle::maintenance::MAX_BATCH_SIZE;
use lifecycle::names::{Address, Symbol};
use lifecycle::state::Lifecycle;
use lifecycle::table::Table;
use lifecycle::types::{BatchRecord, Priority};
use soroban_sdk::{Env, String};

const ADMIN: u128 = 1;
const OWNER: u128 = 2;
const ENGINEER: u128 = 3;
const ASSET: u64 = 1;

fn addr(n: u128) -> Address {
    Address { is_contract: false, head: 0, tail: n }
}

fn registry(n: u128) -> Address {
    Address { is_contract: true, head: 0, tail: n }
}

fn sym(text: &str) -> Symbol {
    Symbol::new(text).unwrap()
}

fn fails<T>(r: Result<T, Abort>, e: LifecycleError) -> bool {
    matches!(r, Err(Abort::Error(x)) if x == e)
}

/// The contract, the time, what the registries know, and who signs.
struct World {
    env: Env,
    l: Lifecycle,
    now: u64,
    assets: Vec<(u64, AssetInfo)>,
    engineers: Vec<(Address, CredentialStatus, u32)>,
    signers: Vec<Address>,
}

#[allow(dead_code)]
impl World {
    /// A contract that is not initialized, with an asset and an engineer of reputation 500, for
    /// whom everyone signs.
    fn raw() -> World {
        let mut signers: Vec<Address> = (1..40).map(addr).collect();
        signers.push(registry(100));
        World {
            env: Env::default(),
            l: Lifecycle::new(),
            now: 1_000,
            assets: vec![(
                ASSET,
                AssetInfo {
                    owner: addr(OWNER),
                    asset_type: sym("GENSET"),
                    decommissioned: false,
                    deprecated: false,
                },
            )],
            engineers: vec![(addr(ENGINEER), CredentialStatus::Valid, 500)],
            signers,
        }
    }

    /// An initialized contract, where the engineer is authorized.
    fn new(max_history: u32) -> World {
        let mut w = World::raw();
        let call = w.call();
        w.l.initialize(&call, addr(ADMIN), registry(100), registry(101), addr(ADMIN), max_history)
            .unwrap();
        w.l.authorize_engineer(&call, addr(OWNER), ASSET, addr(ENGINEER)).unwrap();
        w
    }

    fn text(&self, s: &str) -> String {
        String::from_str(&self.env, s)
    }

    fn call(&self) -> Call {
        let mut assets = Table::new();
        for (id, info) in &self.assets {
            assets.put(*id, *info);
        }
        let mut engineers = Table::new();
        for (a, status, reputation) in &self.engineers {
            let specializations = vec![sym("GENSET"), sym("TURBINE")];
            engineers.put(
                *a,
                EngineerInfo { status: *status, reputation: *reputation, specializations },
            );
        }
        Call { now: self.now, signers: self.signers.clone(), assets, engineers }
    }

    fn add_asset(&mut self, id: u64) {
        let info = AssetInfo {
            owner: addr(OWNER),
            asset_type: sym("GENSET"),
            decommissioned: false,
            deprecated: false,
        };
        self.assets.push((id, info));
        let call = self.call();
        self.l.authorize_engineer(&call, addr(OWNER), id, addr(ENGINEER)).unwrap();
    }

    fn try_submit(&mut self, id: u64, task: &str, notes: &str) -> Result<(), Abort> {
        let call = self.call();
        let text = self.text(notes);
        self.l.submit_maintenance(
            &call,
            id,
            sym(task),
            Priority::Low,
            &text,
            addr(ENGINEER),
            None,
        )
    }

    fn submit(&mut self, id: u64, task: &str) {
        self.try_submit(id, task, "notes").unwrap();
    }

    fn submit_times(&mut self, id: u64, task: &str, n: u32) {
        for _ in 0..n {
            self.submit(id, task);
        }
    }

    fn history_len(&self, id: u64) -> usize {
        self.l.get_maintenance_history(&self.call(), id).unwrap().len()
    }

    fn recency(&self, id: u64) -> u32 {
        self.l.compute_decay(&self.call(), id)
    }

    fn score(&self, id: u64) -> u32 {
        self.l.get_collateral_score(&self.call(), id).unwrap()
    }

    fn eligible(&self, id: u64) -> bool {
        self.l.is_collateral_eligible(&self.call(), id).unwrap()
    }

    fn has_event(&self, n: Notice) -> bool {
        self.l.events().iter().any(|e| matches!(e, Event::Plain(x) if *x == n))
    }
}

fn batch(w: &World, tasks: &[&str]) -> Vec<BatchRecord> {
    tasks
        .iter()
        .map(|t| BatchRecord {
            task_type: sym(t),
            priority: Priority::Low,
            notes: w.text("Routine oil change"),
        })
        .collect()
}

#[test]
fn test_batch_submit_maintenance_rejects_batch_exceeding_max_batch_size() {
    let mut w = World::new(0);
    let records = batch(&w, &vec!["OIL_CHG"; MAX_BATCH_SIZE as usize + 1]);
    assert_eq!(records.len(), 51);
    let call = w.call();
    let r = w.l.batch_submit_maintenance(&call, ASSET, &records, addr(ENGINEER), None);
    assert!(fails(r, LifecycleError::BatchTooLarge));
    assert_eq!(w.history_len(ASSET), 0);
    assert_eq!(w.score(ASSET), 0);
}

#[test]
fn test_batch_submit_maintenance_accepts_exactly_max_batch_size() {
    let mut w = World::new(0);
    let records = batch(&w, &vec!["OIL_CHG"; MAX_BATCH_SIZE as usize]);
    assert_eq!(records.len(), 50);
    let call = w.call();
    w.l.batch_submit_maintenance(&call, ASSET, &records, addr(ENGINEER), None).unwrap();
    assert_eq!(w.history_len(ASSET), 50);
}

#[test]
fn test_prune_asset_history_emits_pruned_event_with_correct_record_count_and_oldest_timestamp() {
    let mut w = World::new(0);
    for i in 0..10 {
        w.now = 1_000 + i;
        w.try_submit(ASSET, "INSPECT", "maintenance event").unwrap();
    }
    let call = w.call();
    w.l.update_max_history(&call, addr(ADMIN), 5).unwrap();
    w.l.prune_asset_history(&call, addr(ADMIN), ASSET).unwrap();
    assert!(w.has_event(Notice::HistoryPruned { asset_id: ASSET, count: 5, oldest: 1_000 }));
    assert_eq!(w.history_len(ASSET), 5);
}

#[test]
fn test_collateral_score_does_not_exceed_100_under_high_volume_maintenance() {
    let mut w = World::new(0);
    for _ in 0..210u32 {
        w.try_submit(ASSET, "ENGINE", "overhaul").unwrap();
        w.now += 1;
        assert!(w.score(ASSET) <= 100);
    }
    assert!(w.eligible(ASSET));
    assert_eq!(w.history_len(ASSET), 200);
}

#[test]
fn test_decommission_blocks_submit_maintenance() {
    let mut w = World::new(0);
    w.try_submit(ASSET, "OIL_CHG", "Pre-decommission service - should succeed").unwrap();
    assert_eq!(w.history_len(ASSET), 1);
    w.assets[0].1.decommissioned = true;
    let r = w.try_submit(ASSET, "OIL_CHG", "Post-decommission attempt - must be rejected");
    assert!(fails(r, LifecycleError::AssetDecommissioned));
    assert_eq!(w.history_len(ASSET), 1);
}

#[test]
fn test_decommission_blocks_repeated_submissions() {
    let mut w = World::new(0);
    w.assets[0].1.decommissioned = true;
    for _ in 0..3u32 {
        let r = w.try_submit(ASSET, "ENGINE", "Repeated post-decommission attempt");
        assert!(fails(r, LifecycleError::AssetDecommissioned));
    }
    assert_eq!(w.history_len(ASSET), 0);
}

#[test]
fn test_decommissioned_asset_blocks_maintenance() {
    let mut w = World::new(0);
    w.try_submit(ASSET, "OIL_CHG", "Pre-decommission service").unwrap();
    assert!(w.score(ASSET) > 0);
    w.assets[0].1.decommissioned = true;
    let call = w.call();
    w.l.decommission_notify(&call, ASSET).unwrap();
    assert!(w.has_event(Notice::Decommissioned { asset_id: ASSET, score: 0 }));
    assert!(w.try_submit(ASSET, "ENGINE", "Post-decommission maintenance").is_err());
    assert_eq!(w.score(ASSET), 0);
    assert_eq!(w.history_len(ASSET), 1);
}

#[test]
fn test_decommissioned_asset_blocks_batch_maintenance() {
    let mut w = World::new(0);
    w.assets[0].1.decommissioned = true;
    let call = w.call();
    let records = batch(&w, &["OIL_CHG", "FILTER"]);
    let r = w.l.batch_submit_maintenance(&call, ASSET, &records, addr(ENGINEER), None);
    assert!(fails(r, LifecycleError::AssetDecommissioned));
    assert_eq!(w.history_len(ASSET), 0);
}

#[test]
fn weighted_services_build_an_eligible_score() {
    let mut w = World::new(0);
    let call = w.call();
    w.l.set_task_weight(&call, addr(ADMIN), sym("ENGINE"), 10).unwrap();
    for i in 0..5u32 {
        w.try_submit(ASSET, "ENGINE", "Engine overhaul").unwrap();
        let history = w.l.get_maintenance_history(&w.call(), ASSET).unwrap();
        assert_eq!(history.len() as u32, i + 1);
        let record = &history[i as usize];
        assert_eq!(record.asset_id, ASSET);
        assert_eq!(record.task_type, sym("ENGINE"));
        assert_eq!(record.engineer, addr(ENGINEER));
        assert_eq!(w.score(ASSET), (i + 1) * 10);
        w.now += 1;
    }
    assert_eq!(w.score(ASSET), 50);
    assert_eq!(w.l.get_score_history(ASSET, 0, 100).unwrap().len(), 5);
    assert!(w.eligible(ASSET));
    let last = w.l.get_last_maintenance(ASSET).unwrap();
    assert_eq!(last.asset_id, ASSET);
    assert_eq!(last.task_type, sym("ENGINE"));
    assert_eq!(last.engineer, addr(ENGINEER));
}

#[test]
fn a_transfer_preserves_history_and_score() {
    let mut w = World::new(0);
    let call = w.call();
    w.l.set_task_weight(&call, addr(ADMIN), sym("ENGINE"), 10).unwrap();
    for _ in 0..3u32 {
        w.try_submit(ASSET, "ENGINE", "Maintenance task").unwrap();
        w.now += 1;
    }
    assert_eq!(w.score(ASSET), 30);
    w.assets[0].1.owner = addr(12);
    let call = w.call();
    w.l.record_transfer(&call, ASSET, addr(OWNER), addr(12)).unwrap();
    let history = w.l.get_maintenance_history(&call, ASSET).unwrap();
    assert_eq!(history.len(), 4);
    for i in 0..3 {
        assert_eq!(history[i].engineer, addr(ENGINEER));
    }
    assert_eq!(history[3].task_type, sym("XFER"));
    assert_eq!(history[3].engineer, addr(12));
    assert_eq!(history[3].notes, b"Ownership transferred".to_vec());
    assert_eq!(w.score(ASSET), 30);
    assert_eq!(w.l.get_score_history(ASSET, 0, 100).unwrap().len(), 3);
}

#[test]
fn test_submit_and_score() {
    let mut w = World::new(0);
    w.submit_times(ASSET, "OIL_CHG", 10);
    assert_eq!(w.score(ASSET), 50);
    assert_eq!(w.history_len(ASSET), 10);
}

#[test]
fn a_submission_is_recorded_and_announced() {
    let mut w = World::new(0);
    let call = w.call();
    let text = w.text("checked");
    w.l.submit_maintenance(
        &call,
        ASSET,
        sym("OIL_CHG"),
        Priority::High,
        &text,
        addr(ENGINEER),
        Some(25),
    )
    .unwrap();
    let record = w.l.get_last_service(ASSET).unwrap();
    assert_eq!(record.priority, Priority::High);
    assert_eq!(record.notes, b"checked".to_vec());
    assert_eq!((record.timestamp, record.cost), (1_000, Some(25)));
    assert!(w.has_event(Notice::Maintained {
        asset_id: ASSET,
        engineer: addr(ENGINEER),
        task_type: sym("OIL_CHG"),
        timestamp: 1_000,
    }));
    assert_eq!(w.l.get_last_service_timestamp(&call, ASSET), Ok(Some(1_000)));
}

#[test]
fn each_refusal_has_its_error() {
    let mut w = World::new(0);
    assert!(fails(w.try_submit(ASSET, "UNKNOWN", "ok"), LifecycleError::InvalidTaskType));
    assert!(fails(w.try_submit(ASSET, "", "ok"), LifecycleError::InvalidTaskType));
    assert!(fails(w.try_submit(ASSET, "OIL_CHG", ""), LifecycleError::NotesTooLong));
    let long = "x".repeat(257);
    assert!(fails(w.try_submit(ASSET, "OIL_CHG", &long), LifecycleError::NotesTooLong));
    assert!(w.try_submit(ASSET, "OIL_CHG", &"x".repeat(256)).is_ok());
    assert!(fails(w.try_submit(999, "OIL_CHG", "ok"), LifecycleError::AssetNotFound));
    for status in [
        CredentialStatus::HardExpired,
        CredentialStatus::Revoked,
        CredentialStatus::NotFound,
    ] {
        w.engineers[0].1 = status;
        let r = w.try_submit(ASSET, "OIL_CHG", "ok");
        assert!(fails(r, LifecycleError::UnauthorizedEngineer));
    }
    w.engineers[0].1 = CredentialStatus::GracePeriod;
    assert!(w.try_submit(ASSET, "OIL_CHG", "ok").is_ok());
    w.assets[0].1.asset_type = sym("VEHICLE");
    let r = w.try_submit(ASSET, "OIL_CHG", "ok");
    assert!(fails(r, LifecycleError::SpecializationMismatch));
    w.signers.retain(|a| *a != addr(ENGINEER));
    let r = w.try_submit(ASSET, "OIL_CHG", "ok");
    assert_eq!(r, Err(Abort::MissingAuth(addr(ENGINEER))));
    assert_eq!(w.history_len(ASSET), 2);
}

#[test]
fn test_unregistered_engineer_rejected() {
    let mut w = World::new(3);
    w.submit_times(ASSET, "OIL_CHG", 3);
    let call = w.call();
    let text = w.text("over cap");
    let r = w.l.submit_maintenance(
        &call,
        ASSET,
        sym("OIL_CHG"),
        Priority::Low,
        &text,
        addr(30),
        None,
    );
    assert!(fails(r, LifecycleError::UnauthorizedEngineer));
}

#[test]
fn test_history_cap_enforced() {
    let mut w = World::new(3);
    w.submit_times(ASSET, "OIL_CHG", 3);
    w.try_submit(ASSET, "OIL_CHG", "over cap").unwrap();
    assert_eq!(w.history_len(ASSET), 3);
    assert!(w.has_event(Notice::HistoryTrimmed { asset_id: ASSET, count: 1 }));
}

#[test]
fn test_update_max_history_enforced_in_submit_maintenance() {
    let mut w = World::new(2);
    w.submit_times(ASSET, "OIL_CHG", 2);
    let call = w.call();
    w.l.update_max_history(&call, addr(ADMIN), 1).unwrap();
    assert_eq!(w.history_len(ASSET), 2);
    w.submit(ASSET, "OIL_CHG");
    assert_eq!(w.history_len(ASSET), 1);
    assert!(w.has_event(Notice::HistoryTrimmed { asset_id: ASSET, count: 2 }));
}

#[test]
fn batches_are_atomic() {
    let mut w = World::new(5);
    let call = w.call();
    let e = addr(ENGINEER);
    let records = batch(&w, &["OIL_CHG", "INSPECT", "UNKNOWN"]);
    let r = w.l.batch_submit_maintenance(&call, ASSET, &records, e, None);
    assert!(fails(r, LifecycleError::InvalidTaskType));
    let r = w.l.batch_submit_maintenance(&call, ASSET, &vec![], e, None);
    assert_eq!(r, Err(Abort::NoRecords));
    let records = batch(&w, &["LUBE"; 6]);
    let r = w.l.batch_submit_maintenance(&call, ASSET, &records, e, None);
    assert!(fails(r, LifecycleError::HistoryCapReached));
    let short_costs = Some(vec![Some(1)]);
    let records = batch(&w, &["LUBE"; 2]);
    let r = w.l.batch_submit_maintenance(&call, ASSET, &records, e, short_costs);
    assert!(fails(r, LifecycleError::InvalidConfig));
    let mut long_notes = batch(&w, &["LUBE", "LUBE"]);
    long_notes[1].notes = w.text(&"x".repeat(257));
    let r = w.l.batch_submit_maintenance(&call, ASSET, &long_notes, e, None);
    assert!(fails(r, LifecycleError::NotesTooLong));
    assert_eq!(w.history_len(ASSET), 0);
    assert_eq!(w.score(ASSET), 0);
    let costs = Some(vec![Some(7), None, Some(9)]);
    let tasks = batch(&w, &["OIL_CHG", "INSPECT", "ENGINE"]);
    w.l.batch_submit_maintenance(&call, ASSET, &tasks, e, costs).unwrap();
    let history = w.l.get_maintenance_history(&call, ASSET).unwrap();
    assert_eq!(history.len(), 3);
    assert_eq!(history[2].task_type, sym("ENGINE"));
    assert_eq!((history[0].cost, history[1].cost, history[2].cost), (Some(7), None, Some(9)));
    assert_eq!(w.score(ASSET), 15);
    assert_eq!(w.l.get_score_history(ASSET, 0, 10).unwrap().len(), 1);
    assert!(w.has_event(Notice::BatchMaintained {
        asset_id: ASSET,
        task_type: sym("INSPECT"),
        priority: Priority::Low,
        engineer: e,
        timestamp: 1_000,
    }));
    assert_eq!(w.l.get_engineer_maintenance_history(e), vec![ASSET]);
}

#[test]
fn a_batch_whose_score_overflows_is_refused() {
    let mut w = World::new(0);
    let call = w.call();
    w.l.set_task_weight(&call, addr(ADMIN), sym("LUBE"), u32::MAX).unwrap();
    w.l.set_task_weight(&call, addr(ADMIN), sym("FUEL"), 1).unwrap();
    let e = addr(ENGINEER);
    let records = batch(&w, &["FUEL", "LUBE"]);
    let r = w.l.batch_submit_maintenance(&call, ASSET, &records, e, None);
    assert!(fails(r, LifecycleError::ScoreOverflow));
    let records = batch(&w, &["LUBE"]);
    w.l.batch_submit_maintenance(&call, ASSET, &records, e, None).unwrap();
    assert_eq!(w.l.get_score_history(ASSET, 0, 1).unwrap()[0].score, 100);
}

#[test]
fn the_submission_rate_is_watched() {
    let mut w = World::new(0);
    let e = addr(ENGINEER);
    w.submit_times(ASSET, "LUBE", 3);
    assert_eq!(w.l.check_engineer_submission_rate(&w.call(), e), Ok(true));
    let call = w.call();
    w.l.set_max_submissions_per_hour(&call, addr(ADMIN), 3).unwrap();
    assert_eq!(w.l.check_engineer_submission_rate(&w.call(), e), Ok(false));
    w.submit(ASSET, "LUBE");
    let notice =
        Notice::RateExceeded { engineer: e, asset_id: ASSET, limit: 3, timestamp: w.now };
    assert!(w.has_event(notice));
    assert_eq!(w.history_len(ASSET), 4);
    w.now += 3_599;
    assert_eq!(w.l.check_engineer_submission_rate(&w.call(), e), Ok(false));
    w.now += 1;
    assert_eq!(w.l.check_engineer_submission_rate(&w.call(), e), Ok(true));
}

#[test]
fn test_maintenance_history_by_engineer() {
    let mut w = World::new(0);
    w.add_asset(2);
    w.submit(ASSET, "LUBE");
    w.submit(2, "LUBE");
    w.submit(ASSET, "LUBE");
    assert_eq!(w.l.get_engineer_maintenance_history(addr(ENGINEER)), vec![1, 2]);
    assert_eq!(w.l.get_eng_maint_hist_count(addr(ENGINEER)), 2);
    assert_eq!(w.l.get_engineer_history_count(addr(ENGINEER)), 2);
    assert_eq!(w.l.get_eng_maint_count(addr(ENGINEER)), 2);
    assert_eq!(w.l.eng_maintenance_history_count(addr(30)), 0);
}

#[test]
fn test_engineer_history_bounded() {
    let mut w = World::new(3);
    for id in 2..6 {
        w.add_asset(id);
    }
    for id in 1..6 {
        w.submit(id, "LUBE");
    }
    assert_eq!(w.l.get_engineer_maintenance_history(addr(ENGINEER)), vec![3, 4, 5]);
}

#[test]
fn test_get_engineer_maintenance_history_truncates_at_101() {
    let mut w = World::new(0);
    for id in 2..102 {
        w.add_asset(id);
    }
    for id in 1..102 {
        w.submit(id, "LUBE");
    }
    let e = addr(ENGINEER);
    assert_eq!(w.l.get_engineer_maintenance_history(e).len(), 100);
    assert_eq!(w.l.get_eng_maint_hist_count(e), 101);
    assert_eq!(w.l.get_eng_history_page(e, 100, 10), vec![101]);
    let mut all = Vec::new();
    for page in 0..11 {
        let (list, total) = w.l.get_engineer_maintenance_history_page(e, page, 10);
        assert_eq!(total, 101);
        all.extend(list);
    }
    assert_eq!(all, (1..102).collect::<Vec<u64>>());
    assert_eq!(w.l.get_engineer_maintenance_history_page(e, u32::MAX, u32::MAX).0.len(), 0);
    assert_eq!(w.l.get_engineer_maintenance_history_page(e, 0, 0), (vec![], 101));
    assert_eq!(w.l.get_engineer_history(e, 99, u32::MAX), vec![100, 101]);
    assert_eq!(w.l.get_engineer_history(e, 101, 5), Vec::<u64>::new());
}

#[test]
fn test_score_isolation_invariant() {
    let mut w = World::new(0);
    w.add_asset(2);
    w.submit_times(ASSET, "ENGINE", 3);
    assert_eq!((w.score(ASSET), w.score(2)), (15, 0));
    w.submit(2, "ENGINE");
    assert_eq!((w.score(ASSET), w.score(2)), (15, 5));
}

#[test]
fn weighted_services_score_assets_independently() {
    let mut w = World::new(0);
    w.add_asset(2);
    let call = w.call();
    w.l.set_task_weight(&call, addr(ADMIN), sym("MAINT"), 20).unwrap();
    for i in 0..3 {
        w.try_submit(ASSET, "MAINT", &format!("Maintenance {}", i)).unwrap();
        w.now += 1;
    }
    for i in 0..5 {
        w.try_submit(2, "MAINT", &format!("Maintenance {}", i)).unwrap();
        w.now += 1;
    }
    let (first, second) = (w.score(ASSET), w.score(2));
    assert!(first > 0);
    assert!(second > 0);
    assert!(second >= first);
    assert!(w.eligible(ASSET));
    assert!(w.eligible(2));
}
