use lifecycle::call::{AssetInfo, Call, CredentialStatus, EngineerInfo};
use lifecycle::errors::{Abort, LifecycleError};
use lifecycle::events::{Event, Notice};
use lifecycle::governance::TIMELOCK_DELAY_SECS;
use lifecycle::history::{DAY_SECS, MAX_INTERVAL_SECS, XFER};
use lifecycle::names::{is_zero_address, Address, Symbol};
use lifecycle::scoring;
use lifecycle::state::Lifecycle;
use lifecycle::table::Table;
use lifecycle::types::{Asset, Engineer, Priority, ScoreEntry, TransferRecord, WasmHash};
use lifecycle::weights::{json_number, parse_frequency_weights};
use soroban_sdk::{Bytes, Env, String};

const ADMIN: u128 = 1;
const OWNER: u128 = 2;
const ENGINEER: u128 = 3;
const ASSET: u64 = 1;

fn addr(n: u128) -> Address {
    Address { is_contract: false, head: 0, tail: n }
}

fn registry(n: u128) -> Address {
    Address { is_contract: true, head: 0, tail: n }
}

fn sym(text: &str) -> Symbol {
    Symbol::new(text).unwrap()
}

fn fails<T>(r: Result<T, Abort>, e: LifecycleError) -> bool {
    matches!(r, Err(Abort::Error(x)) if x == e)
}

/// The contract, the time, what the registries know, and who signs.
struct World {
    env: Env,
    l: Lifecycle,
    now: u64,
    assets: Vec<(u64, AssetInfo)>,
    engineers: Vec<(Address, CredentialStatus, u32)>,
    signers: Vec<Address>,
}

#[allow(dead_code)]
impl World {
    /// A contract that is not initialized, with an asset and an engineer of reputation 500, for
    /// whom everyone signs.
    fn raw() -> World {
        let mut signers: Vec<Address> = (1..40).map(addr).collect();
        signers.push(registry(100));
        World {
            env: Env::default(),
            l: Lifecycle::new(),
            now: 1_000,
            assets: vec![(
                ASSET,
                AssetInfo {
                    owner: addr(OWNER),
                    asset_type: sym("GENSET"),
                    decommissioned: false,
                    deprecated: false,
                },
            )],
            engineers: vec![(addr(ENGINEER), CredentialStatus::Valid, 500)],
            signers,
        }
    }

    /// An initialized contract, where the engineer is authorized.
    fn new(max_history: u32) -> World {
        let mut w = World::raw();
        let call = w.call();
        w.l.initialize(&call, addr(ADMIN), registry(100), registry(101), addr(ADMIN), max_history)
            .unwrap();
        w.l.authorize_engineer(&call, addr(OWNER), ASSET, addr(ENGINEER)).unwrap();
        w
    }

    fn text(&self, s: &str) -> String {
        String::from_str(&self.env, s)
    }

    fn call(&self) -> Call {
        let mut assets = Table::new();
        for (id, info) in &self.assets {
            assets.put(*id, *info);
        }
        let mut engineers = Table::new();
        for (a, status, reputation) in &self.engineers {
            let specializations = vec![sym("GENSET"), sym("TURBINE")];
            engineers.put(
                *a,
                EngineerInfo { status: *status, reputation: *reputation, specializations },
            );
        }
        Call { now: self.now, signers: self.signers.clone(), assets, engineers }
    }

    fn add_asset(&mut self, id: u64) {
        let info = AssetInfo {
            owner: addr(OWNER),
            asset_type: sym("GENSET"),
            decommissioned: false,
            deprecated: false,
        };
        self.assets.push((id, info));
        let call = self.call();
        self.l.authorize_engineer(&call, addr(OWNER), id, addr(ENGINEER)).unwrap();
    }

    fn try_submit(&mut self, id: u64, task: &str, notes: &str) -> Result<(), Abort> {
        let call = self.call();
        let text = self.text(notes);
        self.l.submit_maintenance(
            &call,
            id,
            sym(task),
            Priority::Low,
            &text,
            addr(ENGINEER),
            None,
        )
    }

    fn submit(&mut self, id: u64, task: &str) {
        self.try_submit(id, task, "notes").unwrap();
    }

    fn submit_times(&mut self, id: u64, task: &str, n: u32) {
        for _ in 0..n {
            self.submit(id, task);
        }
    }

    fn history_len(&self, id: u64) -> usize {
        self.l.get_maintenance_history(&self.call(), id).unwrap().len()
    }

    fn recency(&self, id: u64) -> u32 {
        self.l.compute_decay(&self.call(), id)
    }

    fn score(&self, id: u64) -> u32 {
        self.l.get_collateral_score(&self.call(), id).unwrap()
    }

    fn eligible(&self, id: u64) -> bool {
        self.l.is_collateral_eligible(&self.call(), id).unwrap()
    }

    fn has_event(&self, n: Notice) -> bool {
        self.l.events().iter().any(|e| matches!(e, Event::Plain(x) if *x == n))
    }
}

fn submit_cost(w: &mut World, task: &str, cost: Option<u64>) {
    let call = w.call();
    let text = w.text("ok");
    w.l.submit_maintenance(
        &call,
        ASSET,
        sym(task),
        Priority::Low,
        &text,
        addr(ENGINEER),
        cost,
    )
    .unwrap();
}

#[test]
fn symbols_are_spelled_out() {
    assert_eq!(Symbol::short(XFER), sym("XFER"));
    for (code, text) in [
        (scoring::OIL_CHG, "OIL_CHG"),
        (scoring::LUBE, "LUBE"),
        (scoring::INSPECT, "INSPECT"),
        (scoring::FILTER, "FILTER"),
        (scoring::ENGINE, "ENGINE"),
        (scoring::OVERHAUL, "OVERHAUL"),
        (scoring::REBUILD, "REBUILD"),
        (scoring::BEARING, "BEARING"),
        (scoring::COOLANT, "COOLANT"),
        (scoring::FUEL, "FUEL"),
        (scoring::MAINT, "MAINT"),
        (lifecycle::governance::PAUSE, "PAUSE"),
        (lifecycle::governance::UNPAUSE, "UNPAUSE"),
        (lifecycle::governance::ADM_XFER, "ADM_XFER"),
        (lifecycle::governance::UPGRADE, "UPGRADE"),
        (lifecycle::settings::SC_INC, "SC_INC"),
        (lifecycle::settings::DEC_CFG, "DEC_CFG"),
        (lifecycle::settings::ELIG, "ELIG"),
        (lifecycle::settings::MAX_HIST, "MAX_HIST"),
        (lifecycle::settings::MAX_NOTE, "MAX_NOTE"),
        (lifecycle::settings::AST_REG, "AST_REG"),
        (lifecycle::settings::ENG_REG, "ENG_REG"),
    ] {
        assert_eq!(Symbol::short(code), sym(text));
    }
    assert_eq!(sym("AB").head, 0x4142);
    assert!(Symbol::new(&"a".repeat(32)).is_some());
    assert_eq!(sym("abcdefghijklmnopQ").tail, 0x51);
    assert!(Symbol::new(&"a".repeat(33)).is_none());
    assert!(Symbol::new("no-dash").is_none());
    assert_ne!(sym("aa"), sym("a"));
}

#[test]
fn the_zero_address_is_recognized() {
    assert!(is_zero_address(registry(0)));
    assert!(!is_zero_address(addr(0)));
    assert!(!is_zero_address(registry(1)));
}

#[test]
fn numbers_are_found_in_text() {
    let env = Env::default();
    let find = |text: &[u8], key: &[u8]| json_number(&Bytes::from_slice(&env, text), key);
    let text = br#"{"low": 80, "medium" : 100,"high":4294967296, "empty": }"#;
    assert_eq!(find(text, b"\"low\""), Some(80));
    assert_eq!(find(text, b"\"medium\""), Some(100));
    assert_eq!(find(text, b"\"high\""), Some(u32::MAX));
    assert_eq!(find(text, b"\"empty\""), None);
    assert_eq!(find(text, b"\"absent\""), None);
    assert_eq!(find(text, b""), None);
    assert_eq!(find(b"", b"x"), None);
    assert_eq!(find(b"x:1", b"x:1"), None);
    assert_eq!(find(b"\"a\" 5", b"\"a\""), None);
}

#[test]
fn weights_have_defaults_and_limits() {
    let env = Env::default();
    let parse = |text: &[u8]| parse_frequency_weights(&Bytes::from_slice(&env, text));
    let w = parse(br#"{"low":80,"medium":100,"high":120}"#).unwrap();
    assert_eq!((w.low, w.medium, w.high), (80, 100, 120));
    assert_eq!((w.medium_threshold, w.high_threshold, w.window_days), (4, 12, 365));
    assert!(parse(br#"{"low":0,"medium":100,"high":120}"#).is_none());
    assert!(parse(br#"{"low":80,"medium":100}"#).is_none());
    let swapped =
        br#"{"low":80,"medium":100,"high":120,"medium_threshold":9,"high_threshold":8}"#;
    assert!(parse(swapped).is_none());
    let no_window = br#"{"low":80,"medium":100,"high":120,"window_days":0}"#;
    assert!(parse(no_window).is_none());
}

#[test]
fn test_unauthorized_engineer_cannot_submit_maintenance() {
    let mut w = World::new(0);
    w.engineers.push((addr(4), CredentialStatus::Valid, 500));
    let call = w.call();
    let submit = |w: &mut World, call: &Call| {
        let text = w.text("ok");
        w.l.submit_maintenance(
            call,
            ASSET,
            sym("LUBE"),
            Priority::Low,
            &text,
            addr(4),
            None,
        )
    };
    assert!(fails(submit(&mut w, &call), LifecycleError::EngineerNotAuthorized));
    let r = w.l.authorize_engineer(&call, addr(9), ASSET, addr(4));
    assert!(fails(r, LifecycleError::UnauthorizedOwner));
    w.l.authorize_engineer(&call, addr(OWNER), ASSET, addr(4)).unwrap();
    assert!(submit(&mut w, &call).is_ok());
}

#[test]
fn test_propose_revoke_engineer_auth_and_execute_after_delay() {
    let mut w = World::new(0);
    let (o, e) = (addr(OWNER), addr(ENGINEER));
    let call = w.call();
    let r = w.l.execute_revoke_engineer_auth(&call, o, ASSET, e);
    assert!(fails(r, LifecycleError::ProposalNotFound));
    let r = w.l.propose_revoke_engineer_auth(&call, addr(9), ASSET, e);
    assert!(fails(r, LifecycleError::UnauthorizedOwner));
    w.l.propose_revoke_engineer_auth(&call, o, ASSET, e).unwrap();
    assert!(w.has_event(Notice::RevocationProposed {
        owner: o,
        asset_id: ASSET,
        engineer: e,
        timestamp: 1_000,
    }));
    let r = w.l.execute_revoke_engineer_auth(&call, o, ASSET, e);
    assert!(fails(r, LifecycleError::TimelockNotExpired));
    w.submit(ASSET, "LUBE");
    w.now += TIMELOCK_DELAY_SECS;
    let call = w.call();
    w.l.execute_revoke_engineer_auth(&call, o, ASSET, e).unwrap();
    assert!(fails(w.try_submit(ASSET, "LUBE", "ok"), LifecycleError::EngineerNotAuthorized));
    let r = w.l.execute_revoke_engineer_auth(&call, o, ASSET, e);
    assert!(fails(r, LifecycleError::ProposalNotFound));
}

#[test]
fn test_record_transfer_event_includes_sentinel_index() {
    let mut w = World::new(0);
    w.submit_times(ASSET, "LUBE", 2);
    let call = w.call();
    let r = w.l.record_transfer(&call, ASSET, addr(OWNER), addr(12));
    assert!(fails(r, LifecycleError::UnauthorizedOwner));
    w.assets[0].1.owner = addr(12);
    w.now += 10;
    let call = w.call();
    w.l.record_transfer(&call, ASSET, addr(OWNER), addr(12)).unwrap();
    assert!(w.has_event(Notice::Transferred {
        asset_id: ASSET,
        previous_owner: addr(OWNER),
        new_owner: addr(12),
        timestamp: 1_010,
        sentinel_index: 2,
    }));
    assert!(w.l.events().iter().any(|e| matches!(
        e,
        Event::AuthorizationsCleared { asset_id: ASSET, engineers }
            if *engineers == vec![addr(ENGINEER), addr(12)]
    )));
    let transfer = TransferRecord { from: addr(OWNER), to: addr(12), timestamp: 1_010 };
    assert_eq!(w.l.get_transfer_history(ASSET), vec![transfer]);
    assert_eq!(w.l.get_transfer_history(2), vec![]);
    assert!(fails(w.try_submit(ASSET, "LUBE", "ok"), LifecycleError::EngineerNotAuthorized));
    w.l.authorize_engineer(&call, addr(12), ASSET, addr(ENGINEER)).unwrap();
    w.submit(ASSET, "LUBE");
    assert_eq!(w.history_len(ASSET), 4);
}

#[test]
fn a_full_history_makes_room_for_the_transfer() {
    let mut w = World::new(2);
    w.submit_times(ASSET, "LUBE", 2);
    let call = w.call();
    w.l.record_transfer(&call, ASSET, addr(OWNER), addr(OWNER)).unwrap();
    let history = w.l.get_maintenance_history(&call, ASSET).unwrap();
    assert_eq!(history.len(), 2);
    assert_eq!(history[1].task_type, sym("XFER"));
}

#[test]
fn authorizations_can_be_cleared() {
    let mut w = World::new(0);
    let call = w.call();
    let r = w.l.clear_engineer_authorizations(&call, addr(9), ASSET);
    assert!(fails(r, LifecycleError::UnauthorizedOwner));
    w.l.clear_engineer_authorizations(&call, addr(OWNER), ASSET).unwrap();
    assert!(fails(w.try_submit(ASSET, "LUBE", "ok"), LifecycleError::EngineerNotAuthorized));
    w.l.authorize_engineer(&call, addr(OWNER), ASSET, addr(ENGINEER)).unwrap();
    w.submit(ASSET, "LUBE");
    w.assets[0].1.owner = addr(12);
    let call = w.call();
    let r = w.l.transfer_notify(&call, ASSET, addr(9));
    assert!(fails(r, LifecycleError::UnauthorizedOwner));
    w.l.transfer_notify(&call, ASSET, addr(12)).unwrap();
    assert!(w.has_event(Notice::TransferNotified { asset_id: ASSET, new_owner: addr(12) }));
    assert!(fails(w.try_submit(ASSET, "LUBE", "ok"), LifecycleError::EngineerNotAuthorized));
    assert_eq!(w.score(ASSET), 5);
}

#[test]
fn test_get_maintenance_history_page() {
    let mut w = World::new(0);
    w.submit_times(ASSET, "LUBE", 5);
    let call = w.call();
    let len = |o, n| w.l.get_maintenance_history_page(&call, ASSET, o, n).unwrap().len();
    assert_eq!((len(0, 2), len(2, 2), len(4, 2)), (2, 2, 1));
    assert_eq!((len(10, 2), len(0, 0), len(1, u32::MAX)), (0, 0, 4));
    let r = w.l.get_maintenance_history_page(&call, 999, 0, 10);
    assert!(fails(r, LifecycleError::AssetNotFound));
    assert!(fails(w.l.get_maintenance_history(&call, 999), LifecycleError::AssetNotFound));
    assert_eq!(w.l.get_maintenance_history_opt(&call, ASSET).unwrap().unwrap().len(), 5);
    assert!(w.l.get_maintenance_history_opt(&call, 999).unwrap().is_none());
    let r = w.l.get_last_service_timestamp(&call, 999);
    assert!(fails(r, LifecycleError::AssetNotFound));
}

#[test]
fn test_get_last_service_returns_most_recent_by_timestamp() {
    let mut w = World::new(0);
    assert!(w.l.get_last_service(ASSET).is_none());
    for (t, task) in [(50, "LUBE"), (90, "FUEL"), (90, "FILTER"), (70, "ENGINE")] {
        w.now = t;
        w.submit(ASSET, task);
    }
    let last = w.l.get_last_service(ASSET).unwrap();
    assert_eq!((last.timestamp, last.task_type), (90, sym("FUEL")));
}

#[test]
fn test_get_last_service_timestamp_returns_ledger_time() {
    let mut w = World::new(0);
    assert_eq!(w.l.get_last_service_timestamp(&w.call(), ASSET), Ok(None));
    w.submit(ASSET, "OIL_CHG");
    assert_eq!(w.l.get_last_service_timestamp(&w.call(), ASSET), Ok(Some(1_000)));
    w.now += 500;
    w.submit(ASSET, "FILTER");
    assert_eq!(w.l.get_last_service_timestamp(&w.call(), ASSET), Ok(Some(1_500)));
}

#[test]
fn only_maintenance_counts_as_service() {
    let mut w = World::new(0);
    let call = w.call();
    w.l.reset_score(&call, addr(ADMIN), ASSET).unwrap();
    assert_eq!(w.l.get_last_service_timestamp(&call, ASSET), Ok(None));
    w.l.record_transfer(&call, ASSET, addr(OWNER), addr(OWNER)).unwrap();
    assert_eq!(w.l.get_last_service_timestamp(&call, ASSET), Ok(None));
    w.l.authorize_engineer(&call, addr(OWNER), ASSET, addr(ENGINEER)).unwrap();
    w.submit(ASSET, "LUBE");
    w.now += 7 * 2_592_000;
    let call = w.call();
    w.l.decay_score(&call, ASSET).unwrap();
    w.l.record_transfer(&call, ASSET, addr(OWNER), addr(OWNER)).unwrap();
    assert_eq!(w.l.get_last_service_timestamp(&call, ASSET), Ok(Some(1_000)));
    w.l.reset_score(&call, addr(ADMIN), ASSET).unwrap();
    assert_eq!(w.l.get_last_service_timestamp(&call, ASSET), Ok(Some(1_000)));
    w.l.purge_asset_data(&call, addr(ADMIN), ASSET).unwrap();
    assert_eq!(w.l.get_last_service_timestamp(&call, ASSET), Ok(None));
}

#[test]
fn the_service_time_outlasts_its_record() {
    let mut w = World::new(1);
    w.now = 7;
    w.submit(ASSET, "LUBE");
    assert_eq!(w.l.get_last_service_timestamp(&w.call(), ASSET), Ok(Some(7)));
    w.now = 9;
    let call = w.call();
    w.l.record_transfer(&call, ASSET, addr(OWNER), addr(OWNER)).unwrap();
    assert_eq!(w.history_len(ASSET), 1);
    assert_eq!(w.l.get_last_service_timestamp(&call, ASSET), Ok(Some(7)));
}

#[test]
fn costs_are_added_up() {
    let mut w = World::new(0);
    assert_eq!(w.l.get_total_maintenance_cost(ASSET), 0);
    submit_cost(&mut w, "LUBE", Some(10));
    submit_cost(&mut w, "LUBE", None);
    w.now += 1;
    submit_cost(&mut w, "LUBE", Some(25));
    submit_cost(&mut w, "FUEL", Some(7));
    assert_eq!(w.l.get_total_maintenance_cost(ASSET), 42);
    assert_eq!(
        w.l.get_maintenance_cost_history(ASSET),
        vec![(1_000, 10), (1_001, 25), (1_001, 7)]
    );
    assert_eq!(w.l.get_average_maintenance_interval_cost(ASSET, sym("LUBE")), 17);
    assert_eq!(w.l.get_average_maintenance_interval_cost(ASSET, sym("FILTER")), 0);
    submit_cost(&mut w, "LUBE", Some(u64::MAX));
    assert_eq!(w.l.get_total_maintenance_cost(ASSET), u64::MAX);
}

#[test]
fn the_next_service_is_predicted() {
    let mut w = World::new(0);
    let oil = sym("OIL_CHG");
    let r = World::raw().l.calculate_predicted_next_service(ASSET, oil);
    assert!(fails(r, LifecycleError::NotInitialized));
    let r = w.l.calculate_predicted_next_service(ASSET, oil);
    assert!(fails(r, LifecycleError::InsufficientPredictionData));
    w.submit(ASSET, "OIL_CHG");
    let r = w.l.calculate_predicted_next_service(ASSET, oil);
    assert!(fails(r, LifecycleError::InsufficientPredictionData));
    w.submit(ASSET, "OIL_CHG");
    let r = w.l.calculate_predicted_next_service(ASSET, oil);
    assert!(fails(r, LifecycleError::InsufficientPredictionData));
    w.now += 10 * DAY_SECS;
    w.submit(ASSET, "OIL_CHG");
    w.now += 20 * DAY_SECS;
    w.submit(ASSET, "OIL_CHG");
    let due = 1_000 + 45 * DAY_SECS;
    assert_eq!(w.l.calculate_predicted_next_service(ASSET, oil), Ok(due));
    w.now = due;
    let call = w.call();
    assert_eq!(w.l.get_maintenance_alerts(&call, ASSET), vec![]);
    w.now = due + 1;
    let call = w.call();
    assert_eq!(w.l.get_maintenance_alerts(&call, ASSET), vec![(oil, due)]);
    assert!(matches!(
        w.l.events().last(),
        Some(Event::Alerts { asset_id: ASSET, alerts }) if *alerts == vec![(oil, due)]
    ));
}

#[test]
fn predictions_are_kept_reasonable() {
    let mut w = World::new(0);
    w.submit(ASSET, "LUBE");
    w.now += 1;
    w.submit(ASSET, "LUBE");
    let r = w.l.calculate_predicted_next_service(ASSET, sym("LUBE"));
    assert_eq!(r, Ok(1_001 + DAY_SECS));
    w.submit(ASSET, "FUEL");
    w.now += 10 * MAX_INTERVAL_SECS;
    w.submit(ASSET, "FUEL");
    let r = w.l.calculate_predicted_next_service(ASSET, sym("FUEL"));
    assert_eq!(r, Ok(w.now + MAX_INTERVAL_SECS));
    let call = w.call();
    w.l.record_transfer(&call, ASSET, addr(OWNER), addr(OWNER)).unwrap();
    let r = w.l.calculate_predicted_next_service(ASSET, sym("XFER"));
    assert!(fails(r, LifecycleError::InsufficientPredictionData));
}

#[test]
fn duplicates_are_detected_and_marked() {
    let mut w = World::new(0);
    for t in [100, 160, 300] {
        w.now = t;
        w.submit(ASSET, "LUBE");
    }
    w.submit(ASSET, "FUEL");
    assert_eq!(w.l.get_duplicate_maintenance_events(ASSET, 59), vec![]);
    assert_eq!(w.l.get_duplicate_maintenance_events(ASSET, 60), vec![(100, 160)]);
    assert_eq!(
        w.l.get_duplicate_maintenance_events(ASSET, 200),
        vec![(100, 160), (100, 300), (160, 300)]
    );
    let call = w.call();
    let r = w.l.mark_maintenance_as_duplicate(&call, addr(ADMIN), ASSET, 100, 161);
    assert!(fails(r, LifecycleError::DuplicateRecordNotFound));
    w.l.mark_maintenance_as_duplicate(&call, addr(ADMIN), ASSET, 100, 160).unwrap();
    assert!(w.has_event(Notice::DuplicateMarked {
        asset_id: ASSET,
        primary_id: 100,
        duplicate_id: 160,
        timestamp: 300,
    }));
}

#[test]
fn standards_are_registered_and_checked() {
    let mut w = World::new(0);
    let (a, t) = (addr(ADMIN), sym("GENSET"));
    let call = w.call();
    let bytes = |b: &[u8]| Bytes::from_slice(&Env::default(), b);
    let hash = bytes(&[1, 2, 3]);
    assert_eq!(w.l.get_maintenance_standard(t), Vec::<u8>::new());
    assert_eq!(w.l.validate_maintenance_compliance(&call, ASSET, sym("LUBE"), &hash), Ok(false));
    w.l.register_standard(&call, a, t, &hash).unwrap();
    let r = w.l.register_standard(&call, a, t, &bytes(&[9]));
    assert!(fails(r, LifecycleError::StandardAlreadyRegistered));
    assert_eq!(w.l.get_maintenance_standard(t), vec![1, 2, 3]);
    assert_eq!(w.l.validate_maintenance_compliance(&call, ASSET, sym("LUBE"), &hash), Ok(true));
    let r = w.l.validate_maintenance_compliance(&call, ASSET, sym("LUBE"), &bytes(&[1, 2]));
    assert_eq!(r, Ok(false));
    let r = w.l.validate_maintenance_compliance(&call, 999, sym("LUBE"), &hash);
    assert_eq!(r, Ok(false));
}

#[test]
fn recurring_tasks_run_on_schedule() {
    let mut w = World::new(0);
    let (o, e) = (addr(OWNER), addr(ENGINEER));
    let (lube, hours) = (sym("LUBE"), sym("HOURS"));
    let call = w.call();
    let r = w.l.schedule_recurring_task(&call, o, ASSET, 7, lube, hours, 0);
    assert!(fails(r, LifecycleError::InvalidRecurringSchedule));
    let r = w.l.schedule_recurring_task(&call, addr(9), ASSET, 7, lube, hours, 500);
    assert!(fails(r, LifecycleError::UnauthorizedOwner));
    let r = w.l.auto_create_recurring_task(&call, ASSET, 7, e);
    assert!(fails(r, LifecycleError::RecurringTaskNotFound));
    w.l.schedule_recurring_task(&call, o, ASSET, 7, lube, hours, 500).unwrap();
    let r = w.l.schedule_recurring_task(&call, o, ASSET, 7, lube, hours, 900);
    assert!(fails(r, LifecycleError::DuplicateRecurringTask));
    w.l.schedule_recurring_task(&call, o, ASSET, 8, lube, hours, u64::MAX).unwrap();
    let tasks = w.l.get_recurring_tasks(ASSET);
    assert_eq!((tasks[0].next_due, tasks[1].next_due), (1_500, u64::MAX));
    w.now = 1_600;
    let call = w.call();
    w.l.auto_create_recurring_task(&call, ASSET, 7, e).unwrap();
    assert_eq!(w.l.get_recurring_tasks(ASSET)[0].next_due, 2_100);
    let record = w.l.get_last_service(ASSET).unwrap();
    assert_eq!(record.notes, b"Auto-created from recurring schedule".to_vec());
    assert_eq!((record.task_type, record.cost), (lube, None));
    assert_eq!(w.l.get_last_service_timestamp(&call, ASSET), Ok(Some(1_600)));
    assert!(w.has_event(Notice::TaskExecuted {
        asset_id: ASSET,
        task_id: 7,
        task_type: lube,
        timestamp: 1_600,
    }));
}

#[test]
fn test_prune_asset_history_cleans_engineer_index() {
    let mut w = World::new(0);
    w.engineers.push((addr(4), CredentialStatus::Valid, 500));
    let call = w.call();
    w.l.authorize_engineer(&call, addr(OWNER), ASSET, addr(4)).unwrap();
    let text = w.text("ok");
    w.l.submit_maintenance(
        &call,
        ASSET,
        sym("LUBE"),
        Priority::Low,
        &text,
        addr(4),
        None,
    )
    .unwrap();
    w.submit_times(ASSET, "LUBE", 3);
    assert_eq!(w.l.get_engineer_maintenance_history(addr(4)), vec![ASSET]);
    w.l.prune_asset_history(&call, addr(ADMIN), ASSET).unwrap();
    assert_eq!(w.history_len(ASSET), 4);
    w.l.update_max_history(&call, addr(ADMIN), 2).unwrap();
    let r = w.l.prune_asset_history(&call, addr(9), ASSET);
    assert!(fails(r, LifecycleError::UnauthorizedAdmin));
    w.l.prune_asset_history(&call, addr(ADMIN), ASSET).unwrap();
    assert_eq!(w.history_len(ASSET), 2);
    assert_eq!(w.l.get_engineer_maintenance_history(addr(4)), Vec::<u64>::new());
    assert_eq!(w.l.get_engineer_maintenance_history(addr(ENGINEER)), vec![ASSET]);
}

#[test]
fn test_purge_asset_removes_from_engineer_history() {
    let mut w = World::new(0);
    w.add_asset(2);
    w.submit(ASSET, "INSPECT");
    w.submit(2, "INSPECT");
    assert_eq!(w.l.get_score_history(ASSET, 0, 10).unwrap().len(), 1);
    w.assets.remove(0);
    assert_eq!(w.l.get_score_history(ASSET, 0, 10).unwrap().len(), 1);
    let call = w.call();
    w.l.purge_asset_data(&call, addr(ADMIN), ASSET).unwrap();
    assert_eq!(w.l.get_score_history(ASSET, 0, 10).unwrap().len(), 0);
    assert_eq!(w.l.get_engineer_maintenance_history(addr(ENGINEER)), vec![2]);
    assert!(w.l.get_last_service(ASSET).is_none());
    assert_eq!(w.history_len(2), 1);
    assert!(w.has_event(Notice::PurgeDone { admin: addr(ADMIN), asset_id: ASSET }));
}

#[test]
fn a_state_is_put_together_from_its_parts() {
    let mut w = World::new(0);
    w.submit_times(ASSET, "LUBE", 3);
    let call = w.call();
    w.l.propose_admin(&call, addr(ADMIN), addr(9)).unwrap();
    w.l.propose_upgrade(&call, addr(ADMIN), WasmHash { head: 1, tail: 2 }).unwrap();
    let hash = Bytes::from_slice(&w.env, &[4]);
    w.l.register_standard(&call, addr(ADMIN), sym("GENSET"), &hash).unwrap();
    let mut l = Lifecycle::new();
    let config = w.l.get_config().unwrap();
    assert!(l.restore_config(config, registry(100), registry(101)));
    l.restore_pending(w.l.is_paused(), w.l.pending_admin(), w.l.pending_upgrade());
    l.restore_timelock_proposal(sym("ADM_XFER"), w.l.timelock(sym("ADM_XFER")).unwrap());
    l.restore_standard(sym("GENSET"), w.l.load_standard(sym("GENSET")).unwrap().clone());
    l.restore_scoring_weights(sym("GENSET"), vec![1]);
    assert!(l.restore_asset(ASSET, w.l.load_asset(ASSET)));
    assert!(l.restore_engineer(addr(ENGINEER), w.l.load_engineer(addr(ENGINEER))));
    assert_eq!(l.get_collateral_score(&call, ASSET), Ok(15));
    assert_eq!(l.get_engineer_maintenance_history(addr(ENGINEER)), vec![ASSET]);
    assert_eq!(l.pending_admin(), Some(addr(9)));
    assert_eq!(l.pending_upgrade(), Some(WasmHash { head: 1, tail: 2 }));
    assert_eq!(l.timelock(sym("ADM_XFER")).unwrap().proposed_at, 1_000);
    assert_eq!(l.get_maintenance_standard(sym("GENSET")), vec![4]);
    assert_eq!(l.get_scoring_weights(sym("GENSET")), vec![1]);
    assert_eq!(l.load_scoring_weights(sym("TURBINE")), None);
    assert!(l.knows_asset(ASSET) && !l.knows_asset(2));
    assert!(l.knows_engineer(addr(ENGINEER)) && !l.knows_engineer(addr(4)));
}

#[test]
fn unsound_parts_are_refused() {
    let w = World::new(0);
    let mut l = Lifecycle::new();
    assert!(!l.restore_config(w.l.get_config().unwrap(), registry(1), registry(1)));
    let mut config = w.l.get_config().unwrap();
    config.decay_interval = 0;
    assert!(!l.restore_config(config, registry(1), registry(2)));
    let mut asset = Asset::new();
    asset.score = 101;
    assert!(!l.restore_asset(ASSET, asset));
    let mut asset = Asset::new();
    asset.score_history.push(ScoreEntry { timestamp: 1, score: 101 });
    assert!(!l.restore_asset(ASSET, asset));
    let mut asset = Asset::new();
    asset.credits.push(5);
    assert!(!l.restore_asset(ASSET, asset));
    let mut asset = Asset::new();
    asset.valuations.push((1, 101));
    assert!(!l.restore_asset(ASSET, asset));
    let twice = Engineer { assets: vec![1, 2, 1], window: None };
    assert!(!l.restore_engineer(addr(1), twice));
    assert!(l.restore_asset(ASSET, Asset::new()));
}

#[test]
fn an_inactive_task_is_not_carried_out() {
    let mut w = World::new(0);
    let call = w.call();
    let (lube, days) = (sym("LUBE"), sym("DAYS"));
    w.l.schedule_recurring_task(&call, addr(OWNER), ASSET, 7, lube, days, 5).unwrap();
    let mut asset = w.l.load_asset(ASSET);
    asset.tasks[0].is_active = false;
    assert!(w.l.restore_asset(ASSET, asset));
    let r = w.l.auto_create_recurring_task(&call, ASSET, 7, addr(ENGINEER));
    assert!(fails(r, LifecycleError::RecurringTaskInactive));
    let mut asset = w.l.load_asset(ASSET);
    let task = asset.tasks[0];
    asset.tasks.push(task);
    assert!(!w.l.restore_asset(ASSET, asset));
}
