//! The records that the lifecycle contract keeps.

use vstd::prelude::*;

use crate::host::host_string_bytes;
use crate::lists::copy_list;
use crate::names::{Address, Symbol};
use crate::table::Table;

verus! {

/// How urgent a maintenance task is.
#[derive(Clone, Copy, Debug, PartialEq, Eq, Structural)]
pub enum Priority {
    Low,
    Medium,
    High,
    Critical,
}

/// One maintenance event of an asset.
pub struct MaintenanceRecord {
    pub asset_id: u64,
    pub task_type: Symbol,
    pub priority: Priority,
    pub notes: Vec<u8>,
    pub engineer: Address,
    pub timestamp: u64,
    pub cost: Option<u64>,
}

/// A [`MaintenanceRecord`] as a mathematical value.
pub struct RecordView {
    pub asset_id: u64,
    pub task_type: Symbol,
    pub priority: Priority,
    pub notes: Seq<u8>,
    pub engineer: Address,
    pub timestamp: u64,
    pub cost: Option<u64>,
}

impl View for MaintenanceRecord {
    type V = RecordView;

    open spec fn view(&self) -> RecordView {
        RecordView {
            asset_id: self.asset_id,
            task_type: self.task_type,
            priority: self.priority,
            notes: self.notes@,
            engineer: self.engineer,
            timestamp: self.timestamp,
            cost: self.cost,
        }
    }
}

impl MaintenanceRecord {
    /// A record that holds the same.
    pub fn duplicate(&self) -> (r: Self)
        ensures
            r@ == self@,
    {
        MaintenanceRecord {
            asset_id: self.asset_id,
            task_type: self.task_type,
            priority: self.priority,
            notes: copy_list(&self.notes),
            engineer: self.engineer,
            timestamp: self.timestamp,
            cost: self.cost,
        }
    }
}

/// The records of a list as mathematical values.
pub open spec fn records(list: Seq<MaintenanceRecord>) -> Seq<RecordView> {
    Seq::new(list.len(), |i: int| list[i]@)
}

/// A record that is appended to a list is appended to the records.
pub proof fn lemma_records_push(list: Seq<MaintenanceRecord>, r: MaintenanceRecord)
    ensures
        records(list.push(r)) == records(list).push(r@),
{
    assert(records(list.push(r)) =~= records(list).push(r@));
}

/// The records of `list` from `from` up to `to`.
pub fn copy_records(list: &Vec<MaintenanceRecord>, from: usize, to: usize) -> (r: Vec<
    MaintenanceRecord,
>)
    requires
        from <= to <= list@.len(),
    ensures
        records(r@) == records(list@).subrange(from as int, to as int),
{
    let mut r: Vec<MaintenanceRecord> = Vec::new();
    let mut i: usize = from;
    while i < to
        invariant
            from <= i <= to <= list@.len(),
            records(r@) =~= records(list@).subrange(from as int, i as int),
        decreases to - i,
    {
        let next = list[i].duplicate();
        proof {
            lemma_records_push(r@, next);
            assert(records(list@).subrange(from as int, i + 1) =~= records(list@).subrange(
                from as int,
                i as int,
            ).push(list@[i as int]@));
        }
        r.push(next);
        i += 1;
    }
    r
}

/// A maintenance event that is submitted as one of a batch.
pub struct BatchRecord {
    pub task_type: Symbol,
    pub priority: Priority,
    pub notes: soroban_sdk::String,
}

/// A [`BatchRecord`] as a mathematical value.
pub struct BatchView {
    pub task_type: Symbol,
    pub priority: Priority,
    pub notes: Seq<u8>,
}

impl View for BatchRecord {
    type V = BatchView;

    open spec fn view(&self) -> BatchView {
        BatchView {
            task_type: self.task_type,
            priority: self.priority,
            notes: host_string_bytes(self.notes),
        }
    }
}

/// The records of a batch as mathematical values.
pub open spec fn batch(list: Seq<BatchRecord>) -> Seq<BatchView> {
    Seq::new(list.len(), |i: int| list[i]@)
}

/// A collateral score, and when it was reached.
#[derive(Clone, Copy, Debug, PartialEq, Eq, Structural)]
pub struct ScoreEntry {
    pub timestamp: u64,
    pub score: u32,
}

/// A proposal that may be executed once its delay has elapsed.
#[derive(Clone, Copy, Debug, PartialEq, Eq, Structural)]
pub struct TimelockProposal {
    pub proposed_at: u64,
    pub executed: bool,
}

/// A change of the owner of an asset.
#[derive(Clone, Copy, Debug, PartialEq, Eq, Structural)]
pub struct TransferRecord {
    pub from: Address,
    pub to: Address,
    pub timestamp: u64,
}

/// The condition of an asset at one point in time.
#[derive(Clone, Copy, Debug, PartialEq, Eq, Structural)]
pub struct HealthSnapshot {
    pub timestamp: u64,
    pub score: u32,
    pub maintenance_count: u32,
    pub last_service_date: u64,
}

/// A maintenance task that is due again and again.
#[derive(Clone, Copy, Debug, PartialEq, Eq, Structural)]
pub struct RecurringTask {
    pub task_id: u64,
    pub task_type: Symbol,
    pub interval_type: Symbol,
    pub interval_value: u64,
    pub next_due: u64,
    pub is_active: bool,
}

/// The hash of a contract's code.
#[derive(Clone, Copy, Debug, PartialEq, Eq, Structural)]
pub struct WasmHash {
    pub head: u128,
    pub tail: u128,
}

/// The settings of the contract.
pub struct Config {
    pub admin: Address,
    pub admins: Vec<Address>,
    pub admin_threshold: u32,
    pub max_history: u32,
    pub score_increment: u32,
    pub decay_rate: u32,
    pub decay_interval: u64,
    pub eligibility_threshold: u32,
    pub max_notes_length: u32,
    pub task_weights: Table<Symbol, u32>,
    pub max_submissions_per_hour: u32,
}

/// A [`Config`] as a mathematical value.
pub struct ConfigView {
    pub admin: Address,
    pub admins: Seq<Address>,
    pub admin_threshold: u32,
    pub max_history: u32,
    pub score_increment: u32,
    pub decay_rate: u32,
    pub decay_interval: u64,
    pub eligibility_threshold: u32,
    pub max_notes_length: u32,
    pub task_weights: Map<Symbol, u32>,
    pub max_submissions_per_hour: u32,
}

impl View for Config {
    type V = ConfigView;

    open spec fn view(&self) -> ConfigView {
        ConfigView {
            admin: self.admin,
            admins: self.admins@,
            admin_threshold: self.admin_threshold,
            max_history: self.max_history,
            score_increment: self.score_increment,
            decay_rate: self.decay_rate,
            decay_interval: self.decay_interval,
            eligibility_threshold: self.eligibility_threshold,
            max_notes_length: self.max_notes_length,
            task_weights: self.task_weights@,
            max_submissions_per_hour: self.max_submissions_per_hour,
        }
    }
}

impl Config {
    /// Settings that hold the same.
    pub fn duplicate(&self) -> (r: Self)
        ensures
            r@ == self@,
    {
        Config {
            admin: self.admin,
            admins: copy_list(&self.admins),
            admin_threshold: self.admin_threshold,
            max_history: self.max_history,
            score_increment: self.score_increment,
            decay_rate: self.decay_rate,
            decay_interval: self.decay_interval,
            eligibility_threshold: self.eligibility_threshold,
            max_notes_length: self.max_notes_length,
            task_weights: self.task_weights.duplicate(),
            max_submissions_per_hour: self.max_submissions_per_hour,
        }
    }
}

impl ConfigView {
    /// No setting that has to be positive is zero.
    pub open spec fn wf(self) -> bool {
        &&& self.max_history > 0
        &&& self.score_increment > 0
        &&& self.decay_rate > 0
        &&& self.decay_interval > 0
        &&& self.eligibility_threshold > 0
        &&& self.max_notes_length > 0
    }
}

/// What the contract keeps of one asset.
pub struct Asset {
    pub history: Vec<MaintenanceRecord>,
    pub credits: Vec<u32>,
    pub score: u32,
    pub last_update: Option<u64>,
    pub last_service: Option<u64>,
    pub score_history: Vec<ScoreEntry>,
    pub valuations: Vec<(u64, u64)>,
    pub authorized: Table<Address, ()>,
    pub revocations: Table<Address, TimelockProposal>,
    pub frozen: bool,
    pub snapshots: Vec<HealthSnapshot>,
    pub transfers: Vec<TransferRecord>,
    pub tasks: Vec<RecurringTask>,
    pub duplicates: Vec<u64>,
}

/// An [`Asset`] as a mathematical value.
pub struct AssetView {
    /// The maintenance events, oldest first.
    pub history: Seq<RecordView>,
    /// What each maintenance event counts for in the recency score when it is fresh.
    pub credits: Seq<u32>,
    /// The stored collateral score.
    pub score: u32,
    /// When the score was last brought up to date.
    pub last_update: Option<u64>,
    /// When the asset was last serviced; it is known also once the record of it is gone.
    pub last_service: Option<u64>,
    /// The scores that were reached, oldest first.
    pub score_history: Seq<ScoreEntry>,
    /// The valuations that were reached, each with its time before it, oldest first.
    pub valuations: Seq<(u64, u64)>,
    /// The engineers whom the owner has authorized.
    pub authorized: Set<Address>,
    /// The proposals to take an engineer's authorization away.
    pub revocations: Map<Address, TimelockProposal>,
    /// Whether the asset is out of service for good.
    pub frozen: bool,
    /// The health snapshots, oldest first.
    pub snapshots: Seq<HealthSnapshot>,
    /// The changes of owner, oldest first.
    pub transfers: Seq<TransferRecord>,
    /// The recurring tasks.
    pub tasks: Seq<RecurringTask>,
    /// The timestamps of the records that are marked as duplicates.
    pub duplicates: Seq<u64>,
}

impl View for Asset {
    type V = AssetView;

    open spec fn view(&self) -> AssetView {
        AssetView {
            history: records(self.history@),
            credits: self.credits@,
            score: self.score,
            last_update: self.last_update,
            last_service: self.last_service,
            score_history: self.score_history@,
            valuations: self.valuations@,
            authorized: self.authorized@.dom(),
            revocations: self.revocations@,
            frozen: self.frozen,
            snapshots: self.snapshots@,
            transfers: self.transfers@,
            tasks: self.tasks@,
            duplicates: self.duplicates@,
        }
    }
}

impl AssetView {
    /// An asset of which nothing is kept.
    pub open spec fn empty() -> AssetView {
        AssetView {
            history: Seq::empty(),
            credits: Seq::empty(),
            score: 0,
            last_update: None,
            last_service: None,
            score_history: Seq::empty(),
            valuations: Seq::empty(),
            authorized: Set::empty(),
            revocations: Map::empty(),
            frozen: false,
            snapshots: Seq::empty(),
            transfers: Seq::empty(),
            tasks: Seq::empty(),
            duplicates: Seq::empty(),
        }
    }

    /// No score exceeds 100, the history can be counted and every event of it has its credit, and
    /// no two recurring tasks share a number.
    pub open spec fn wf(self) -> bool {
        &&& self.score <= 100
        &&& forall|i: int|
            0 <= i < self.score_history.len() ==> (#[trigger] self.score_history[i]).score <= 100
        &&& forall|i: int|
            0 <= i < self.valuations.len() ==> (#[trigger] self.valuations[i]).1 <= 100
        &&& self.history.len() <= u32::MAX
        &&& self.credits.len() == self.history.len()
        &&& forall|i: int, j: int|
            0 <= i < j < self.tasks.len() ==> (#[trigger] self.tasks[i]).task_id != (
            #[trigger] self.tasks[j]).task_id
    }
}

impl Asset {
    /// An asset of which nothing is kept.
    pub fn new() -> (r: Self)
        ensures
            r@ == AssetView::empty(),
    {
        let r = Asset {
            history: Vec::new(),
            credits: Vec::new(),
            score: 0,
            last_update: None,
            last_service: None,
            score_history: Vec::new(),
            valuations: Vec::new(),
            authorized: Table::new(),
            revocations: Table::new(),
            frozen: false,
            snapshots: Vec::new(),
            transfers: Vec::new(),
            tasks: Vec::new(),
            duplicates: Vec::new(),
        };
        assert(r@.history =~= Seq::empty());
        assert(r@.authorized =~= Set::empty());
        r
    }

    /// An asset of which the same is kept.
    pub fn duplicate(&self) -> (r: Self)
        ensures
            r@ == self@,
    {
        let n: usize = self.history.len();
        let r = Asset {
            history: copy_records(&self.history, 0, n),
            credits: copy_list(&self.credits),
            score: self.score,
            last_update: self.last_update,
            last_service: self.last_service,
            score_history: copy_list(&self.score_history),
            valuations: copy_list(&self.valuations),
            authorized: self.authorized.duplicate(),
            revocations: self.revocations.duplicate(),
            frozen: self.frozen,
            snapshots: copy_list(&self.snapshots),
            transfers: copy_list(&self.transfers),
            tasks: copy_list(&self.tasks),
            duplicates: copy_list(&self.duplicates),
        };
        assert(r@.history =~= self@.history);
        r
    }
}

/// What the contract keeps of one engineer.
pub struct Engineer {
    pub assets: Vec<u64>,
    pub window: Option<(u64, u32)>,
}

/// An [`Engineer`] as a mathematical value.
pub struct EngineerView {
    /// The assets that the engineer has worked on, oldest first.
    pub assets: Seq<u64>,
    /// The start of the window in which submissions are counted, and their number.
    pub window: Option<(u64, u32)>,
}

impl View for Engineer {
    type V = EngineerView;

    open spec fn view(&self) -> EngineerView {
        EngineerView { assets: self.assets@, window: self.window }
    }
}

impl EngineerView {
    /// An engineer of whom nothing is kept.
    pub open spec fn empty() -> EngineerView {
        EngineerView { assets: Seq::empty(), window: None }
    }

    /// No asset is listed twice, and the assets can be counted.
    pub open spec fn wf(self) -> bool {
        self.assets.no_duplicates() && self.assets.len() <= u32::MAX
    }
}

impl Engineer {
    /// An engineer of whom nothing is kept.
    pub fn new() -> (r: Self)
        ensures
            r@ == EngineerView::empty(),
    {
        Engineer { assets: Vec::new(), window: None }
    }

    /// An engineer of whom the same is kept.
    pub fn duplicate(&self) -> (r: Self)
        ensures
            r@ == self@,
    {
        Engineer { assets: copy_list(&self.assets), window: self.window }
    }
}

} // verus!
