use lifecycle::call::{AssetInfo, Call, CredentialStatus, EngineerInfo};
use lifecycle::errors::{Abort, LifecycleError};
use lifecycle::events::{Event, Notice};
use lifecycle::names::{Address, Symbol};
use lifecycle::state::Lifecycle;
use lifecycle::table::Table;
use lifecycle::scoring::MAX_AGE_LEDGERS;
use lifecycle::types::{BatchRecord, Priority};
use soroban_sdk::{Bytes, Env, String};

const ADMIN: u128 = 1;
const OWNER: u128 = 2;
const ENGINEER: u128 = 3;
const ASSET: u64 = 1;

fn addr(n: u128) -> Address {
    Address { is_contract: false, head: 0, tail: n }
}

fn registry(n: u128) -> Address {
    Address { is_contract: true, head: 0, tail: n }
}

fn sym(text: &str) -> Symbol {
    Symbol::new(text).unwrap()
}

fn fails<T>(r: Result<T, Abort>, e: LifecycleError) -> bool {
    matches!(r, Err(Abort::Error(x)) if x == e)
}

/// The contract, the time, what the registries know, and who signs.
struct World {
    env: Env,
    l: Lifecycle,
    now: u64,
    assets: Vec<(u64, AssetInfo)>,
    engineers: Vec<(Address, CredentialStatus, u32)>,
    signers: Vec<Address>,
}

#[allow(dead_code)]
impl World {
    /// A contract that is not initialized, with an asset and an engineer of reputation 500, for
    /// whom everyone signs.
    fn raw() -> World {
        let mut signers: Vec<Address> = (1..40).map(addr).collect();
        signers.push(registry(100));
        World {
            env: Env::default(),
            l: Lifecycle::new(),
            now: 1_000,
            assets: vec![(
                ASSET,
                AssetInfo {
                    owner: addr(OWNER),
                    asset_type: sym("GENSET"),
                    decommissioned: false,
                    deprecated: false,
                },
            )],
            engineers: vec![(addr(ENGINEER), CredentialStatus::Valid, 500)],
            signers,
        }
    }

    /// An initialized contract, where the engineer is authorized.
    fn new(max_history: u32) -> World {
        let mut w = World::raw();
        let call = w.call();
        w.l.initialize(&call, addr(ADMIN), registry(100), registry(101), addr(ADMIN), max_history)
            .unwrap();
        w.l.authorize_engineer(&call, addr(OWNER), ASSET, addr(ENGINEER)).unwrap();
        w
    }

    fn text(&self, s: &str) -> String {
        String::from_str(&self.env, s)
    }

    fn call(&self) -> Call {
        let mut assets = Table::new();
        for (id, info) in &self.assets {
            assets.put(*id, *info);
        }
        let mut engineers = Table::new();
        for (a, status, reputation) in &self.engineers {
            let specializations = vec![sym("GENSET"), sym("TURBINE")];
            engineers.put(
                *a,
                EngineerInfo { status: *status, reputation: *reputation, specializations },
            );
        }
        Call { now: self.now, signers: self.signers.clone(), assets, engineers }
    }

    fn add_asset(&mut self, id: u64) {
        let info = AssetInfo {
            owner: addr(OWNER),
            asset_type: sym("GENSET"),
            decommissioned: false,
            deprecated: false,
        };
        self.assets.push((id, info));
        let call = self.call();
        self.l.authorize_engineer(&call, addr(OWNER), id, addr(ENGINEER)).unwrap();
    }

    fn try_submit(&mut self, id: u64, task: &str, notes: &str) -> Result<(), Abort> {
        let call = self.call();
        let text = self.text(notes);
        self.l.submit_maintenance(
            &call,
            id,
            sym(task),
            Priority::Low,
            &text,
            addr(ENGINEER),
            None,
        )
    }

    fn submit(&mut self, id: u64, task: &str) {
        self.try_submit(id, task, "notes").unwrap();
    }

    fn submit_times(&mut self, id: u64, task: &str, n: u32) {
        for _ in 0..n {
            self.submit(id, task);
        }
    }

    fn history_len(&self, id: u64) -> usize {
        self.l.get_maintenance_history(&self.call(), id).unwrap().len()
    }

    fn recency(&self, id: u64) -> u32 {
        self.l.compute_decay(&self.call(), id)
    }

    fn score(&self, id: u64) -> u32 {
        self.l.get_collateral_score(&self.call(), id).unwrap()
    }

    fn eligible(&self, id: u64) -> bool {
        self.l.is_collateral_eligible(&self.call(), id).unwrap()
    }

    fn has_event(&self, n: Notice) -> bool {
        self.l.events().iter().any(|e| matches!(e, Event::Plain(x) if *x == n))
    }
}

const DAY: u64 = 86_400;

fn rookie_submits(w: &mut World, n: u32) {
    w.engineers[0].2 = 0;
    for _ in 0..n {
        w.try_submit(ASSET, "ENGINE", "overhaul").unwrap();
        w.now += 1;
    }
}

#[test]
fn test_score_decrements_by_decay_rate_over_three_intervals() {
    let mut w = World::new(0);
    rookie_submits(&mut w, 6);
    let initial = w.score(ASSET);
    assert!(initial > 9);
    let (rate, interval) = (3u32, 60u64);
    let call = w.call();
    w.l.update_decay_config(&call, addr(ADMIN), rate, interval).unwrap();
    w.now += 3 * interval;
    let decayed = w.l.decay_score(&w.call(), ASSET).unwrap();
    assert_eq!(decayed, initial.saturating_sub(3 * rate));
}

#[test]
fn test_score_clamped_at_min_score_with_history_for_maintained_asset() {
    let mut w = World::new(0);
    w.engineers[0].2 = 0;
    w.try_submit(ASSET, "ENGINE", "minor service").unwrap();
    let call = w.call();
    w.l.update_decay_config(&call, addr(ADMIN), 50, 10).unwrap();
    w.now += 10_000;
    assert_eq!(w.l.decay_score(&w.call(), ASSET), Ok(1));
    assert!(!w.eligible(ASSET));
}

#[test]
fn test_score_is_zero_for_asset_with_no_maintenance_history() {
    let mut w = World::new(0);
    let call = w.call();
    w.l.update_decay_config(&call, addr(ADMIN), 5, 60).unwrap();
    w.now += 600;
    assert_eq!(w.l.decay_score(&w.call(), ASSET), Ok(0));
    assert!(!w.eligible(ASSET));
}

#[test]
fn test_score_decrements_step_by_step_each_interval() {
    let mut w = World::new(0);
    rookie_submits(&mut w, 6);
    let initial = w.score(ASSET);
    let (rate, interval) = (2u32, 30u64);
    let call = w.call();
    w.l.update_decay_config(&call, addr(ADMIN), rate, interval).unwrap();
    let mut expected = initial;
    let mut steps: u32 = 0;
    loop {
        w.now += interval;
        let score = w.l.decay_score(&w.call(), ASSET).unwrap();
        if expected <= rate {
            assert_eq!(score, 1);
            break;
        }
        expected = expected.saturating_sub(rate);
        assert_eq!(score, expected);
        steps += 1;
        assert!(steps <= 100);
    }
    assert_eq!(w.score(ASSET), 1);
}

#[test]
fn test_insufficient_collateral_score_blocks_lending() {
    let w = World::new(0);
    assert_eq!(w.score(ASSET), 0);
    assert!(!w.eligible(ASSET));
}

#[test]
fn test_decay_score_uses_configured_values() {
    let mut w = World::new(0);
    w.submit_times(ASSET, "ENGINE", 5);
    let initial = w.score(ASSET);
    assert_eq!(initial, 25);
    let call = w.call();
    w.l.update_decay_config(&call, addr(ADMIN), 2, 100).unwrap();
    w.now += 250;
    w.l.decay_score(&w.call(), ASSET).unwrap();
    assert_eq!(w.score(ASSET), initial - 4);
    assert!(w.has_event(Notice::Decayed {
        asset_id: ASSET,
        old_score: 25,
        new_score: 21,
        timestamp: w.now,
    }));
}

#[test]
fn test_get_collateral_score_is_read_only() {
    let mut w = World::new(0);
    w.submit_times(ASSET, "ENGINE", 4);
    assert_eq!(w.score(ASSET), 20);
    let call = w.call();
    w.l.update_decay_config(&call, addr(ADMIN), 5, 60).unwrap();
    w.now += 60;
    assert_eq!(w.score(ASSET), 15);
    w.now += 60;
    assert_eq!(w.score(ASSET), 10);
    assert_eq!(w.score(ASSET), 10);
    assert_eq!(w.l.load_asset(ASSET).score, 20);
}

#[test]
fn decay_takes_five_points_per_thirty_days() {
    let mut w = World::new(0);
    w.submit_times(ASSET, "ENGINE", 10);
    assert_eq!(w.score(ASSET), 50);
    w.now += 2 * 2_592_000;
    assert_eq!(w.l.decay_score(&w.call(), ASSET), Ok(40));
}

#[test]
fn decay_counts_from_the_last_service_after_a_reset() {
    let mut w = World::new(0);
    w.submit(ASSET, "ENGINE");
    let call = w.call();
    w.l.reset_score(&call, addr(ADMIN), ASSET).unwrap();
    w.submit_times(ASSET, "ENGINE", 2);
    assert_eq!(w.score(ASSET), 10);
    w.now += 100;
    assert_eq!(w.l.decay_score(&w.call(), ASSET), Ok(10));
    w.now += 2_592_000;
    assert_eq!(w.l.decay_score(&w.call(), ASSET), Ok(5));
    assert_eq!(w.l.decay_score(&w.call(), ASSET), Ok(5));
}

#[test]
fn test_score_floor_with_sparse_history() {
    let mut w = World::new(0);
    w.submit(ASSET, "OIL_CHG");
    assert_eq!(w.score(ASSET), 5);
    w.now += 2 * 2_592_000;
    assert_eq!(w.score(ASSET), 1);
    assert_eq!(w.l.decay_score(&w.call(), ASSET), Ok(1));
    assert_eq!(w.score(ASSET), 1);
}

#[test]
fn the_recency_score_fades_with_age() {
    let mut w = World::new(0);
    w.submit(ASSET, "ENGINE");
    assert_eq!(w.recency(ASSET), 5);
    w.now = 1_000 + 15 * DAY;
    assert_eq!(w.recency(ASSET), 2);
    w.now = 1_000 + 30 * DAY;
    assert_eq!(w.recency(ASSET), 0);
    assert_eq!(MAX_AGE_LEDGERS * 5, 30 * DAY);
}

#[test]
fn collateral_scores_account_for_recency() {
    let mut w = World::new(0);
    w.add_asset(2);
    w.submit(ASSET, "ENGINE");
    w.submit(2, "ENGINE");
    let initial = w.score(2);
    assert_eq!(w.score(ASSET), initial);
    w.now = 1_000 + 15 * DAY;
    let old_score = w.score(2);
    assert!(old_score < initial);
    w.submit(ASSET, "ENGINE");
    assert!(w.score(ASSET) > old_score);
    w.now = 1_000 + 30 * DAY;
    assert_eq!(w.recency(2), 0);
    assert!(w.recency(ASSET) > 0);
    assert!(w.score(ASSET) > w.score(2));
}

#[test]
fn the_lower_of_recency_and_decay_counts() {
    let mut w = World::new(0);
    w.submit_times(ASSET, "ENGINE", 4);
    let call = w.call();
    assert_eq!(w.l.collateral_score_given(&call, ASSET, 100), Ok(20));
    assert_eq!(w.l.collateral_score_given(&call, ASSET, 7), Ok(7));
    assert_eq!(w.l.collateral_score_given(&call, ASSET, 0), Ok(1));
    assert!(fails(w.l.collateral_score_given(&call, 999, 0), LifecycleError::AssetNotFound));
}

#[test]
fn duplicates_do_not_count_for_recency() {
    let mut w = World::new(0);
    w.submit(ASSET, "ENGINE");
    w.now += 1;
    w.submit(ASSET, "ENGINE");
    assert_eq!(w.recency(ASSET), 10);
    let call = w.call();
    w.l.mark_maintenance_as_duplicate(&call, addr(ADMIN), ASSET, 1_000, 1_001).unwrap();
    assert_eq!(w.recency(ASSET), 5);
}

fn score_at_reputation(reputation: u32) -> u32 {
    let mut w = World::new(0);
    w.engineers[0].2 = reputation;
    w.submit(ASSET, "OIL_CHG");
    w.score(ASSET)
}

#[test]
fn test_reputation_zero_halves_score_increment() {
    assert_eq!(score_at_reputation(0), 2);
}

#[test]
fn reputation_500_earns_the_base_increment() {
    assert_eq!(score_at_reputation(500), 5);
}

#[test]
fn reputation_1000_earns_half_as_much_again() {
    assert_eq!(score_at_reputation(1_000), 7);
}

#[test]
fn test_higher_reputation_yields_higher_collateral_score() {
    assert!(score_at_reputation(1_000) > score_at_reputation(0));
    assert!(score_at_reputation(1_000) > score_at_reputation(500));
}

#[test]
fn test_collateral_score_monotonically_increases_with_verified_maintenance() {
    let mut w = World::new(0);
    let tasks = ["OIL_CHG", "FILTER", "ENGINE", "INSPECT"];
    let notes = ["Oil change", "Filter replacement", "Engine overhaul", "Inspection follow-up"];
    let mut previous = w.score(ASSET);
    for (task, note) in tasks.iter().zip(notes.iter()) {
        w.try_submit(ASSET, task, note).unwrap();
        w.now += 1;
        let current = w.score(ASSET);
        assert!(current >= previous);
        previous = current;
    }
    assert_eq!(w.history_len(ASSET), 4);
}

#[test]
fn a_recurring_task_counts_as_recent_maintenance() {
    let mut w = World::new(0);
    w.submit_times(ASSET, "LUBE", 2);
    let call = w.call();
    let (lube, days) = (sym("LUBE"), sym("DAYS"));
    w.l.schedule_recurring_task(&call, addr(OWNER), ASSET, 7, lube, days, 5).unwrap();
    w.now += 15 * DAY;
    assert_eq!((w.recency(ASSET), w.score(ASSET)), (5, 5));
    let call = w.call();
    w.l.auto_create_recurring_task(&call, ASSET, 7, addr(ENGINEER)).unwrap();
    assert_eq!((w.recency(ASSET), w.score(ASSET)), (10, 10));
}

#[test]
fn batch_records_count_for_what_they_earned() {
    let mut w = World::new(0);
    w.engineers[0].2 = 1_000;
    let record = |task: &str| BatchRecord {
        task_type: sym(task),
        priority: Priority::Low,
        notes: w.text("ok"),
    };
    let records = vec![record("LUBE"), record("FUEL")];
    let call = w.call();
    w.l.batch_submit_maintenance(&call, ASSET, &records, addr(ENGINEER), None).unwrap();
    assert_eq!((w.recency(ASSET), w.score(ASSET)), (14, 14));
}

#[test]
fn test_score_increment_affects_scoring() {
    let mut w = World::new(0);
    w.submit(ASSET, "OIL_CHG");
    assert_eq!(w.l.get_collateral_score(&w.call(), ASSET), Ok(5));
    let call = w.call();
    w.l.update_score_increment(&call, addr(ADMIN), 8).unwrap();
    w.submit(ASSET, "FILTER");
    assert_eq!(w.l.get_collateral_score(&w.call(), ASSET), Ok(13));
    w.l.update_score_increment(&call, addr(ADMIN), 20).unwrap();
    w.submit_times(ASSET, "ENGINE", 5);
    assert_eq!(w.l.get_collateral_score(&w.call(), ASSET), Ok(100));
}

#[test]
fn test_set_task_weight_configures_custom_weight() {
    let mut w = World::new(0);
    let call = w.call();
    w.l.set_task_weight(&call, addr(ADMIN), sym("OIL_CHG"), 20).unwrap();
    w.submit(ASSET, "OIL_CHG");
    assert_eq!(w.score(ASSET), 20);
}

#[test]
fn test_set_multiple_task_weights() {
    let mut w = World::new(0);
    w.add_asset(2);
    let call = w.call();
    w.l.set_task_weight(&call, addr(ADMIN), sym("OIL_CHG"), 10).unwrap();
    w.l.set_task_weight(&call, addr(ADMIN), sym("ENGINE"), 50).unwrap();
    w.submit(ASSET, "OIL_CHG");
    w.submit(2, "ENGINE");
    assert_eq!((w.score(ASSET), w.score(2)), (10, 50));
}

#[test]
fn test_task_weight_tiers() {
    let mut w = World::new(0);
    for task in ["OIL_CHG", "FILTER", "ENGINE"] {
        w.submit(ASSET, task);
        assert_eq!(w.score(ASSET), 5);
        let call = w.call();
        w.l.reset_score(&call, addr(ADMIN), ASSET).unwrap();
    }
    assert!(fails(w.try_submit(ASSET, "UNKNOWN", "ok"), LifecycleError::InvalidTaskType));
}

const WEIGHTS: &[u8] = b"{\"low\":80,\"medium\":100,\"high\":140,\"medium_threshold\":4,\"high_threshold\":10,\"window_days\":365}";

#[test]
fn test_dynamic_scoring_weights_apply_low_frequency_penalty() {
    let mut w = World::new(0);
    let call = w.call();
    let json = Bytes::from_slice(&w.env, WEIGHTS);
    w.l.update_scoring_weights(&call, addr(ADMIN), sym("GENSET"), &json).unwrap();
    for _ in 0..3 {
        w.submit(ASSET, "FILTER");
        w.now += 1;
    }
    assert_eq!(w.score(ASSET), 12);
}

#[test]
fn test_dynamic_scoring_weights_apply_high_frequency_bonus() {
    let mut w = World::new(0);
    let call = w.call();
    let json = Bytes::from_slice(&w.env, WEIGHTS);
    w.l.update_scoring_weights(&call, addr(ADMIN), sym("GENSET"), &json).unwrap();
    for _ in 0..10 {
        w.submit(ASSET, "FILTER");
        w.now += 1;
    }
    assert_eq!(w.score(ASSET), 70);
    assert!(w.eligible(ASSET));
}

#[test]
fn test_update_scoring_weights_rejects_invalid_json_shape() {
    let mut w = World::new(0);
    let call = w.call();
    let json = Bytes::from_slice(&w.env, WEIGHTS);
    let bad = Bytes::from_slice(&w.env, b"{\"low\":80,\"medium\":100}");
    let r = w.l.update_scoring_weights(&call, addr(ADMIN), sym("GENSET"), &bad);
    assert!(fails(r, LifecycleError::InvalidConfig));
    let r = w.l.update_scoring_weights(&call, addr(9), sym("GENSET"), &json);
    assert!(fails(r, LifecycleError::UnauthorizedAdmin));
    assert_eq!(w.l.get_scoring_weights(sym("GENSET")), Vec::<u8>::new());
    w.l.update_scoring_weights(&call, addr(ADMIN), sym("GENSET"), &json).unwrap();
    assert_eq!(w.l.get_scoring_weights(sym("GENSET")), WEIGHTS.to_vec());
}

#[test]
fn test_is_collateral_eligible_flips_false_after_decay() {
    let mut w = World::new(0);
    w.submit_times(ASSET, "FILTER", 10);
    assert!(w.eligible(ASSET));
    let call = w.call();
    w.l.update_decay_config(&call, addr(ADMIN), 5, 60).unwrap();
    w.now += 120;
    assert!(!w.eligible(ASSET));
}

#[test]
fn the_eligibility_threshold_decides() {
    let mut w = World::new(0);
    w.submit_times(ASSET, "INSPECT", 15);
    assert!(w.eligible(ASSET));
    let call = w.call();
    w.l.set_eligibility_threshold(&call, addr(ADMIN), 200).unwrap();
    assert!(!w.eligible(ASSET));
    w.l.set_eligibility_threshold(&call, addr(ADMIN), 10).unwrap();
    assert!(w.eligible(ASSET));
}

#[test]
fn test_batch_is_collateral_eligible_mixed() {
    let mut w = World::new(0);
    w.add_asset(2);
    w.submit_times(ASSET, "ENGINE", 10);
    w.submit(2, "OIL_CHG");
    let call = w.call();
    let r = w.l.batch_is_collateral_eligible(&call, &vec![ASSET, 2]);
    assert_eq!(r, Ok(vec![true, false]));
    assert_eq!(w.l.batch_is_collateral_eligible(&call, &vec![]), Ok(vec![]));
    let r = w.l.batch_is_collateral_eligible(&call, &vec![ASSET, 999]);
    assert!(fails(r, LifecycleError::AssetNotFound));
}

#[test]
fn test_get_collateral_score_batch_unknown_asset_is_skipped() {
    let mut w = World::new(0);
    w.add_asset(2);
    w.submit_times(ASSET, "ENGINE", 2);
    w.assets[1].1.deprecated = true;
    let call = w.call();
    let r = w.l.get_collateral_score_batch(&call, &vec![999, ASSET, 2]);
    assert_eq!(r, Ok(vec![(ASSET, 10), (2, 0)]));
    assert_eq!(w.l.get_collateral_score_opt(&call, ASSET), Ok(Some(10)));
    assert_eq!(w.l.get_collateral_score_opt(&call, 2), Ok(Some(0)));
    assert_eq!(w.l.get_collateral_score_opt(&call, 999), Ok(None));
}

#[test]
fn test_deprecated_asset_returns_zero_collateral_score() {
    let mut w = World::new(0);
    w.submit_times(ASSET, "ENGINE", 10);
    w.assets[0].1.deprecated = true;
    assert_eq!(w.score(ASSET), 0);
    assert!(!w.eligible(ASSET));
}

#[test]
fn test_collateral_score_is_zero_after_decommission() {
    let mut w = World::new(0);
    w.submit_times(ASSET, "ENGINE", 10);
    let call = w.call();
    w.l.decommission_notify(&call, ASSET).unwrap();
    assert_eq!(w.score(ASSET), 0);
    assert!(!w.eligible(ASSET));
    assert_eq!(w.l.decay_score(&call, ASSET), Ok(0));
    assert_eq!(w.l.get_collateral_score_opt(&call, ASSET), Ok(Some(0)));
    w.signers.retain(|a| *a != registry(100));
    let call = w.call();
    assert_eq!(w.l.decommission_notify(&call, 2), Err(Abort::MissingAuth(registry(100))));
}

#[test]
fn test_get_collateral_valuation_returns_current_value_and_timestamp() {
    let mut w = World::new(0);
    assert_eq!(w.l.get_collateral_valuation(&w.call(), ASSET), Ok((0, 1_000)));
    w.submit(ASSET, "OIL_CHG");
    let (timestamp, value) = w.l.get_valuation_history(&w.call(), ASSET).unwrap()[0];
    w.now += 5;
    assert_eq!(w.l.get_collateral_valuation(&w.call(), ASSET), Ok((value, timestamp)));
    assert_eq!(value, w.score(ASSET) as u64);
}

#[test]
fn test_valuation_history_records_reset_score() {
    let mut w = World::new(0);
    w.submit(ASSET, "OIL_CHG");
    w.now += 1;
    let call = w.call();
    w.l.reset_score(&call, addr(ADMIN), ASSET).unwrap();
    let history = w.l.get_valuation_history(&call, ASSET).unwrap();
    assert_eq!(history, vec![(1_000, 5), (1_001, 0)]);
    assert!(w.has_event(Notice::ScoreReset {
        asset_id: ASSET,
        admin: addr(ADMIN),
        timestamp: 1_001,
    }));
}

#[test]
fn test_score_history_dedup_same_ledger_submit() {
    let mut w = World::new(0);
    w.submit(ASSET, "OIL_CHG");
    w.submit(ASSET, "INSPECT");
    let history = w.l.get_score_history(ASSET, 0, 10).unwrap();
    assert_eq!(history.len(), 1);
    assert_eq!((history[0].timestamp, history[0].score), (1_000, 10));
}

#[test]
fn test_score_history_pruned_at_max_history() {
    let mut w = World::new(5);
    for _ in 0..5 {
        w.submit(ASSET, "OIL_CHG");
        w.now += 1;
    }
    assert_eq!(w.l.get_score_history(ASSET, 0, 100).unwrap().len(), 5);
    for _ in 0..3 {
        w.now += 2_592_000;
        w.l.decay_score(&w.call(), ASSET).unwrap();
    }
    assert_eq!(w.l.get_score_history(ASSET, 0, 100).unwrap().len(), 5);
    assert_eq!(w.l.get_valuation_history(&w.call(), ASSET).unwrap().len(), 5);
}

#[test]
fn test_score_trend_returns_last_n() {
    let mut w = World::new(0);
    let call = w.call();
    assert_eq!(w.l.get_score_trend(&call, ASSET, 3).unwrap().len(), 0);
    for _ in 0..5 {
        w.submit(ASSET, "OIL_CHG");
        w.now += 1;
    }
    let trend = w.l.get_score_trend(&call, ASSET, 2).unwrap();
    assert_eq!((trend[0].score, trend[1].score, trend.len()), (20, 25, 2));
    assert_eq!(w.l.get_score_trend(&call, ASSET, 9).unwrap().len(), 5);
    assert_eq!(w.l.get_score_trend(&call, ASSET, 0).unwrap().len(), 0);
    assert!(fails(w.l.get_score_trend(&call, 999, 1), LifecycleError::AssetNotFound));
    assert_eq!(w.l.get_score_history(ASSET, 3, 10).unwrap().len(), 2);
    assert_eq!(w.l.get_score_history(ASSET, 3, 0).unwrap().len(), 0);
    assert_eq!(w.l.get_score_history(999, 0, 10).unwrap().len(), 0);
}

#[test]
fn test_request_loan_zero_threshold_rejected() {
    let mut w = World::new(0);
    w.submit_times(ASSET, "ENGINE", 10);
    let call = w.call();
    let r = w.l.request_loan(&call, ASSET, 0, 1);
    assert!(fails(r, LifecycleError::InvalidConfig));
    let r = w.l.request_loan(&call, ASSET, 1, 0);
    assert!(fails(r, LifecycleError::InvalidConfig));
    let r = w.l.request_loan(&call, ASSET, 1, -1);
    assert!(fails(r, LifecycleError::InvalidConfig));
    assert_eq!(w.l.request_loan(&call, ASSET, 1, 1), Ok(true));
    w.now += 30 * DAY;
    assert_eq!(w.l.request_loan(&w.call(), ASSET, 1, 1), Ok(false));
    assert!(fails(w.l.request_loan(&call, 999, 1, 1), LifecycleError::AssetNotFound));
}

#[test]
fn health_snapshots_show_the_condition() {
    let mut w = World::new(0);
    let call = w.call();
    let empty = w.l.take_health_snapshot(&call, ASSET).unwrap();
    assert_eq!((empty.timestamp, empty.score), (1_000, 0));
    assert_eq!((empty.maintenance_count, empty.last_service_date), (0, 0));
    w.submit(ASSET, "OIL_CHG");
    w.now += 2_592_000;
    let call = w.call();
    let snapshot = w.l.take_health_snapshot(&call, ASSET).unwrap();
    assert_eq!((snapshot.timestamp, snapshot.score), (w.now, 0));
    assert_eq!((snapshot.maintenance_count, snapshot.last_service_date), (1, 1_000));
    assert_eq!(w.l.get_health_snapshots(ASSET), vec![empty, snapshot]);
    assert!(fails(w.l.take_health_snapshot(&call, 999), LifecycleError::AssetNotFound));
}

#[test]
fn a_decayed_score_stays_down() {
    let mut w = World::new(0);
    w.submit_times(ASSET, "ENGINE", 10);
    let call = w.call();
    w.l.update_decay_config(&call, addr(ADMIN), 5, 1).unwrap();
    for intervals in [100, u32::MAX as u64, u32::MAX as u64 + 1, u64::MAX - 1_000] {
        w.now = 1_000 + intervals;
        assert_eq!(w.l.get_collateral_score_opt(&w.call(), ASSET), Ok(Some(1)));
    }
}

#[test]
fn the_admin_can_force_decay() {
    let mut w = World::new(0);
    w.submit_times(ASSET, "ENGINE", 2);
    w.now += 2_592_000;
    let call = w.call();
    assert!(fails(w.l.force_decay(&call, addr(9), ASSET), LifecycleError::UnauthorizedAdmin));
    w.l.force_decay(&call, addr(ADMIN), ASSET).unwrap();
    assert_eq!(w.l.get_score_trend(&call, ASSET, 1).unwrap()[0].score, 5);
}
