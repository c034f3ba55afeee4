//! Maintenance submissions, one by one and in batches.

use vstd::prelude::*;

use crate::call::{Call, CallView, CredentialStatus};
use crate::engineers::{
    assets_with, engineer_history_add, engineer_within_submission_rate, lemma_assets_with,
    record_engineer_submission, window_after, within_rate,
};
use crate::errors::{Abort, LifecycleError};
use crate::events::{EventView, Notice};
use crate::history::{last_records, push_record};
use crate::host::{host_string_bytes, read_text};
use crate::lists::{copy_last, keep_last};
use crate::names::{Address, Symbol};
use crate::scoring::{
    compute_reward, is_known_task, known_task, lemma_scored_wf, raise, raised, reward, scored,
    set_score, MAX_SCORE,
};
use crate::state::{either, error, outcome, Lifecycle, State};
use crate::types::{
    batch, records, AssetView, BatchRecord, BatchView, Config, ConfigView, EngineerView,
    MaintenanceRecord, Priority, RecordView,
};
use crate::validation::require_non_empty;

verus! {

/// The largest number of records in a batch.
pub const MAX_BATCH_SIZE: u32 = 50;

/// Why the call ends where the notes have to be acceptable.
pub open spec fn notes_check(c: ConfigView, notes: Seq<u8>) -> Option<Abort> {
    if notes.len() == 0 || notes.len() > c.max_notes_length {
        error(LifecycleError::NotesTooLong)
    } else {
        None
    }
}

/// Why the call ends where the task type has to be known.
pub open spec fn task_check(c: ConfigView, task_type: Symbol) -> Option<Abort> {
    if !known_task(c, task_type) {
        error(LifecycleError::InvalidTaskType)
    } else {
        None
    }
}

/// Whether a credential entitles to submit maintenance.
pub open spec fn in_force(status: CredentialStatus) -> bool {
    status == CredentialStatus::Valid || status == CredentialStatus::GracePeriod
}

/// Why the call ends where the asset has to be in service and the engineer entitled to work on it.
pub open spec fn service_check(
    s: State,
    call: CallView,
    asset_id: u64,
    engineer: Address,
) -> Option<
    Abort,
> {
    if s.asset_check(call, asset_id) is Some {
        s.asset_check(call, asset_id)
    } else if call.assets[asset_id].decommissioned {
        error(LifecycleError::AssetDecommissioned)
    } else if s.engineer_registry is None {
        error(LifecycleError::NotInitialized)
    } else if !in_force(call.engineer(engineer).status) {
        error(LifecycleError::UnauthorizedEngineer)
    } else if !s.asset(asset_id).authorized.contains(engineer) {
        error(LifecycleError::EngineerNotAuthorized)
    } else if !call.engineer(engineer).specializations.contains(
        call.assets[asset_id].asset_type,
    ) {
        error(LifecycleError::SpecializationMismatch)
    } else {
        None
    }
}

/// Why a submission is refused.
pub open spec fn submission_check(
    s: State,
    call: CallView,
    asset_id: u64,
    task_type: Symbol,
    notes: Seq<u8>,
    engineer: Address,
) -> Option<Abort> {
    let c = s.config->0;
    either(
        s.entry_check(call, engineer),
        either(
            s.init_check(),
            either(
                task_check(c, task_type),
                either(notes_check(c, notes), service_check(s, call, asset_id, engineer)),
            ),
        ),
    )
}

/// The state after a submission that is not refused: the record is appended, the oldest ones make
/// room for it, the submission is counted and the score raised.
pub open spec fn after_submission(
    s: State,
    call: CallView,
    record: RecordView,
) -> State {
    let c = s.config->0;
    let a = s.asset(record.asset_id);
    let e = s.engineer(record.engineer);
    let gain = reward(c, record.task_type, call.engineer(record.engineer).reputation);
    let trimmed = if a.history.len() >= c.max_history {
        s.notify(
            Notice::HistoryTrimmed {
                asset_id: record.asset_id,
                count: (a.history.len() - c.max_history + 1) as u32,
            },
        )
    } else {
        s
    };
    let flagged = if within_rate(e.window, call.now, c.max_submissions_per_hour) {
        trimmed
    } else {
        trimmed.notify(
            Notice::RateExceeded {
                engineer: record.engineer,
                asset_id: record.asset_id,
                limit: c.max_submissions_per_hour,
                timestamp: call.now,
            },
        )
    };
    flagged.with_engineer(
        record.engineer,
        EngineerView {
            assets: assets_with(e.assets, record.asset_id, c.max_history),
            window: Some(window_after(e.window, call.now)),
        },
    ).with_asset(
        record.asset_id,
        scored(
            AssetView {
                history: keep_last(a.history, (c.max_history - 1) as nat).push(record),
                credits: keep_last(a.credits, (c.max_history - 1) as nat).push(gain),
                last_service: Some(call.now),
                ..a
            },
            raised(a.score, gain),
            call.now,
            c.max_history,
        ),
    ).notify(
        Notice::Maintained {
            asset_id: record.asset_id,
            engineer: record.engineer,
            task_type: record.task_type,
            timestamp: call.now,
        },
    )
}

/// What a submission leads to.
pub open spec fn submitted(
    s: State,
    call: CallView,
    asset_id: u64,
    task_type: Symbol,
    priority: Priority,
    notes: Seq<u8>,
    engineer: Address,
    cost: Option<u64>,
) -> Result<State, Abort> {
    match submission_check(s, call, asset_id, task_type, notes, engineer) {
        Some(e) => Err(e),
        None => Ok(
            after_submission(
                s,
                call,
                RecordView {
                    asset_id,
                    task_type,
                    priority,
                    notes,
                    engineer,
                    timestamp: call.now,
                    cost,
                },
            ),
        ),
    }
}

/// Why the records of a batch are refused: the first that is not acceptable decides.
pub open spec fn contents_check(c: ConfigView, list: Seq<BatchView>) -> Option<Abort>
    decreases list.len(),
{
    if list.len() == 0 {
        None
    } else {
        either(
            contents_check(c, list.drop_last()),
            either(notes_check(c, list.last().notes), task_check(c, list.last().task_type)),
        )
    }
}

/// The score after all records of a batch; none where an addition exceeds 32 bits.
pub open spec fn score_after(
    c: ConfigView,
    start: u32,
    list: Seq<BatchView>,
    reputation: u32,
) -> Option<u32>
    decreases list.len(),
{
    if list.len() == 0 {
        Some(start)
    } else {
        match score_after(c, start, list.drop_last(), reputation) {
            None => None,
            Some(score) => {
                let increment = reward(c, list.last().task_type, reputation);
                if score + increment > u32::MAX {
                    None
                } else {
                    Some(raised(score, increment))
                }
            },
        }
    }
}

/// Why a batch is refused.
pub open spec fn batch_check(
    s: State,
    call: CallView,
    asset_id: u64,
    list: Seq<BatchView>,
    engineer: Address,
    costs: Option<Seq<Option<u64>>>,
) -> Option<Abort> {
    let c = s.config->0;
    let a = s.asset(asset_id);
    if s.entry_check(call, engineer) is Some {
        s.entry_check(call, engineer)
    } else if s.config is None {
        error(LifecycleError::NotInitialized)
    } else if list.len() == 0 {
        Some(Abort::NoRecords)
    } else if list.len() > MAX_BATCH_SIZE {
        error(LifecycleError::BatchTooLarge)
    } else if contents_check(c, list) is Some {
        contents_check(c, list)
    } else if service_check(s, call, asset_id, engineer) is Some {
        service_check(s, call, asset_id, engineer)
    } else if a.history.len() + list.len() > c.max_history {
        error(LifecycleError::HistoryCapReached)
    } else if costs is Some && costs->0.len() != list.len() {
        error(LifecycleError::InvalidConfig)
    } else if score_after(c, a.score, list, call.engineer(engineer).reputation) is None {
        error(LifecycleError::ScoreOverflow)
    } else {
        None
    }
}

/// The maintenance record that record `i` of a batch becomes.
pub open spec fn batch_record(
    asset_id: u64,
    list: Seq<BatchView>,
    i: int,
    engineer: Address,
    costs: Option<Seq<Option<u64>>>,
    now: u64,
) -> RecordView {
    RecordView {
        asset_id,
        task_type: list[i].task_type,
        priority: list[i].priority,
        notes: list[i].notes,
        engineer,
        timestamp: now,
        cost: match costs {
            Some(c) => c[i],
            None => None,
        },
    }
}

/// The announcement of record `i` of a batch.
pub open spec fn batch_event(
    asset_id: u64,
    list: Seq<BatchView>,
    i: int,
    engineer: Address,
    now: u64,
) -> EventView {
    EventView::Plain(
        Notice::BatchMaintained {
            asset_id,
            task_type: list[i].task_type,
            priority: list[i].priority,
            engineer,
            timestamp: now,
        },
    )
}

/// What each record of a batch earns.
pub open spec fn batch_rewards(c: ConfigView, list: Seq<BatchView>, reputation: u32) -> Seq<u32> {
    list.map_values(|r: BatchView| reward(c, r.task_type, reputation))
}

/// The state after a batch that is not refused.
pub open spec fn after_batch(
    s: State,
    call: CallView,
    asset_id: u64,
    list: Seq<BatchView>,
    engineer: Address,
    costs: Option<Seq<Option<u64>>>,
) -> State {
    let c = s.config->0;
    let a = s.asset(asset_id);
    let e = s.engineer(engineer);
    let announced = State {
        events: s.events + Seq::new(
            list.len(),
            |i: int| batch_event(asset_id, list, i, engineer, call.now),
        ),
        ..s
    };
    announced.with_engineer(
        engineer,
        EngineerView { assets: assets_with(e.assets, asset_id, c.max_history), ..e },
    ).with_asset(
        asset_id,
        scored(
            AssetView {
                history: a.history + Seq::new(
                    list.len(),
                    |i: int| batch_record(asset_id, list, i, engineer, costs, call.now),
                ),
                credits: a.credits + batch_rewards(
                    c,
                    list,
                    call.engineer(engineer).reputation,
                ),
                last_service: Some(call.now),
                ..a
            },
            score_after(c, a.score, list, call.engineer(engineer).reputation)->0,
            call.now,
            c.max_history,
        ),
    )
}

/// What a batch leads to: all of its records are taken, or none.
pub open spec fn batch_submitted(
    s: State,
    call: CallView,
    asset_id: u64,
    list: Seq<BatchView>,
    engineer: Address,
    costs: Option<Seq<Option<u64>>>,
) -> Result<State, Abort> {
    match batch_check(s, call, asset_id, list, engineer, costs) {
        Some(e) => Err(e),
        None => Ok(after_batch(s, call, asset_id, list, engineer, costs)),
    }
}

/// The costs as a mathematical value.
pub open spec fn costs_view(costs: Option<Vec<Option<u64>>>) -> Option<Seq<Option<u64>>> {
    match costs {
        Some(c) => Some(c@),
        None => None,
    }
}

/// The score after a batch is a score.
proof fn lemma_score_after(c: ConfigView, start: u32, list: Seq<BatchView>, reputation: u32)
    requires
        start <= MAX_SCORE,
    ensures
        score_after(c, start, list, reputation) matches Some(score) ==> score <= MAX_SCORE,
    decreases list.len(),
{
    if list.len() > 0 {
        lemma_score_after(c, start, list.drop_last(), reputation);
    }
}

/// Where a part of the batch exceeds 32 bits, the batch does.
proof fn lemma_score_after_none(
    c: ConfigView,
    start: u32,
    list: Seq<BatchView>,
    reputation: u32,
    n: int,
)
    requires
        0 <= n <= list.len(),
        score_after(c, start, list.take(n), reputation) is None,
    ensures
        score_after(c, start, list, reputation) is None,
    decreases list.len() - n,
{
    if n < list.len() {
        assert(list.take(n + 1).drop_last() =~= list.take(n));
        lemma_score_after_none(c, start, list, reputation, n + 1);
    } else {
        assert(list.take(n) =~= list);
    }
}

/// Where a part of the batch is refused, the batch is, for the same reason.
proof fn lemma_contents_check(c: ConfigView, list: Seq<BatchView>, n: int)
    requires
        0 <= n <= list.len(),
        contents_check(c, list.take(n)) is Some,
    ensures
        contents_check(c, list) == contents_check(c, list.take(n)),
    decreases list.len() - n,
{
    if n < list.len() {
        assert(list.take(n + 1).drop_last() =~= list.take(n));
        lemma_contents_check(c, list, n + 1);
    } else {
        assert(list.take(n) =~= list);
    }
}

/// A state stays well-formed where a well-formed asset and engineer are stored and more is
/// announced.
pub proof fn lemma_stored_wf(
    s: State,
    t: State,
    asset_id: u64,
    a: AssetView,
    engineer: Address,
    e: EngineerView,
)
    requires
        s.wf(),
        a.wf(),
        e.wf(),
        t == (State { events: t.events, ..s.with_engineer(engineer, e).with_asset(asset_id, a) }),
    ensures
        t.wf(),
{
    assert forall|id: u64| #[trigger] t.assets.contains_key(id) implies t.assets[id].wf() by {
        if id != asset_id {
            assert(s.assets.contains_key(id));
        }
    }
    assert forall|x: Address| #[trigger] t.engineers.contains_key(x) implies t.engineers[x].wf() by {
        if x != engineer {
            assert(s.engineers.contains_key(x));
        }
    }
}

/// Ends the call unless the notes are acceptable.
fn validate_notes_length(c: &Config, notes: &soroban_sdk::String) -> (r: Option<Abort>)
    ensures
        r == notes_check(c@, host_string_bytes(*notes)),
{
    if notes.is_empty() {
        return Some(Abort::Error(LifecycleError::NotesTooLong));
    }
    if notes.len() > c.max_notes_length {
        return Some(Abort::Error(LifecycleError::NotesTooLong));
    }
    None
}

/// Ends the call unless the task type is known.
fn validate_task_type(c: &Config, task_type: Symbol) -> (r: Option<Abort>)
    ensures
        r == task_check(c@, task_type),
{
    if is_known_task(c, task_type) {
        None
    } else {
        Some(Abort::Error(LifecycleError::InvalidTaskType))
    }
}

/// Ends the call unless every record of the batch is acceptable.
fn validate_contents(c: &Config, list: &Vec<BatchRecord>) -> (r: Option<Abort>)
    ensures
        r == contents_check(c@, batch(list@)),
{
    let ghost views = batch(list@);
    let mut i: usize = 0;
    while i < list.len()
        invariant
            i <= list@.len(),
            views == batch(list@),
            contents_check(c@, views.take(i as int)) is None,
        decreases list@.len() - i,
    {
        proof {
            assert(views.take(i + 1).drop_last() =~= views.take(i as int));
            assert(views.take(i + 1).last() == list@[i as int]@);
        }
        if let Some(e) = validate_notes_length(c, &list[i].notes) {
            proof {
                lemma_contents_check(c@, views, i + 1);
            }
            return Some(e);
        }
        if let Some(e) = validate_task_type(c, list[i].task_type) {
            proof {
                lemma_contents_check(c@, views, i + 1);
            }
            return Some(e);
        }
        i += 1;
    }
    assert(views.take(views.len() as int) =~= views);
    None
}

/// The score after all records of the batch; none where an addition exceeds 32 bits.
fn compute_score_after(c: &Config, start: u32, list: &Vec<BatchRecord>, reputation: u32) -> (r:
    Option<u32>)
    ensures
        r == score_after(c@, start, batch(list@), reputation),
{
    let ghost views = batch(list@);
    let mut score: u32 = start;
    let mut i: usize = 0;
    while i < list.len()
        invariant
            i <= list@.len(),
            views == batch(list@),
            score_after(c@, start, views.take(i as int), reputation) == Some(score),
        decreases list@.len() - i,
    {
        proof {
            assert(views.take(i + 1).drop_last() =~= views.take(i as int));
            assert(views.take(i + 1).last() == list@[i as int]@);
        }
        let increment: u32 = compute_reward(c, list[i].task_type, reputation);
        match score.checked_add(increment) {
            None => {
                proof {
                    lemma_score_after_none(c@, start, views, reputation, i + 1);
                }
                return None;
            },
            Some(_) => {
                score = raise(score, increment);
            },
        }
        i += 1;
    }
    assert(views.take(views.len() as int) =~= views);
    Some(score)
}

/// Appends the records of the batch to the history.
fn push_batch(
    history: &mut Vec<MaintenanceRecord>,
    asset_id: u64,
    list: &Vec<BatchRecord>,
    engineer: Address,
    costs: &Option<Vec<Option<u64>>>,
    now: u64,
)
    requires
        costs matches Some(c) ==> c@.len() == list@.len(),
    ensures
        records(final(history)@) == records(old(history)@) + Seq::new(
            list@.len(),
            |i: int| batch_record(asset_id, batch(list@), i, engineer, costs_view(*costs), now),
        ),
{
    let ghost before = records(history@);
    let ghost added = Seq::new(
        list@.len(),
        |i: int| batch_record(asset_id, batch(list@), i, engineer, costs_view(*costs), now),
    );
    let mut i: usize = 0;
    assert(before + added.take(0) =~= before);
    while i < list.len()
        invariant
            i <= list@.len(),
            costs matches Some(c) ==> c@.len() == list@.len(),
            added == Seq::new(
                list@.len(),
                |i: int| batch_record(asset_id, batch(list@), i, engineer, costs_view(*costs), now),
            ),
            records(history@) == before + added.take(i as int),
        decreases list@.len() - i,
    {
        let cost: Option<u64> = match costs {
            Some(c) => c[i],
            None => None,
        };
        let record = MaintenanceRecord {
            asset_id,
            task_type: list[i].task_type,
            priority: list[i].priority,
            notes: read_text(&list[i].notes),
            engineer,
            timestamp: now,
            cost,
        };
        proof {
            assert(record@ == added[i as int]);
            assert(before + added.take(i + 1) =~= (before + added.take(i as int)).push(record@));
        }
        push_record(history, record);
        i += 1;
    }
    assert(added.take(added.len() as int) =~= added);
}

/// Appends what each record of the batch earns.
fn push_rewards(credits: &mut Vec<u32>, c: &Config, list: &Vec<BatchRecord>, reputation: u32)
    ensures
        final(credits)@ == old(credits)@ + batch_rewards(c@, batch(list@), reputation),
{
    let ghost before = credits@;
    let ghost added = batch_rewards(c@, batch(list@), reputation);
    let mut i: usize = 0;
    assert(before + added.take(0) =~= before);
    while i < list.len()
        invariant
            i <= list@.len(),
            added == batch_rewards(c@, batch(list@), reputation),
            credits@ == before + added.take(i as int),
        decreases list@.len() - i,
    {
        let gain: u32 = compute_reward(c, list[i].task_type, reputation);
        proof {
            assert(added[i as int] == gain);
            assert(before + added.take(i + 1) =~= (before + added.take(i as int)).push(gain));
        }
        credits.push(gain);
        i += 1;
    }
    assert(added.take(added.len() as int) =~= added);
}

impl Lifecycle {
    /// Ends the call unless the asset is in service and the engineer entitled to work on it.
    fn require_service(&self, call: &Call, asset_id: u64, engineer: Address) -> (r: Option<Abort>)
        ensures
            r == service_check(self@, call@, asset_id, engineer),
    {
        let info = match self.verify_asset_exists(call, asset_id) {
            Ok(info) => info,
            Err(e) => return Some(e),
        };
        if info.decommissioned {
            return Some(Abort::Error(LifecycleError::AssetDecommissioned));
        }
        if let Err(e) = self.get_engineer_registry() {
            return Some(e);
        }
        let status = call.credential_status(engineer);
        if status != CredentialStatus::Valid && status != CredentialStatus::GracePeriod {
            return Some(Abort::Error(LifecycleError::UnauthorizedEngineer));
        }
        let asset = self.load_asset(asset_id);
        if asset.authorized.get(engineer).is_none() {
            return Some(Abort::Error(LifecycleError::EngineerNotAuthorized));
        }
        if !call.is_specialized(engineer, info.asset_type) {
            return Some(Abort::Error(LifecycleError::SpecializationMismatch));
        }
        None
    }

    /// Submits a maintenance record for an asset.
    pub fn submit_maintenance(
        &mut self,
        call: &Call,
        asset_id: u64,
        task_type: Symbol,
        priority: Priority,
        notes: &soroban_sdk::String,
        engineer: Address,
        cost: Option<u64>,
    ) -> (r: Result<(), Abort>)
        requires
            old(self)@.wf(),
        ensures
            outcome(
                r,
                old(self)@,
                final(self)@,
                submitted(
                    old(self)@,
                    call@,
                    asset_id,
                    task_type,
                    priority,
                    host_string_bytes(*notes),
                    engineer,
                    cost,
                ),
            ),
            final(self)@.wf(),
    {
        if let Some(e) = self.require_entry(call, engineer) {
            return Err(e);
        }
        let config = match self.load_config() {
            Some(c) => c,
            None => return Err(Abort::Error(LifecycleError::NotInitialized)),
        };
        if let Some(e) = validate_task_type(&config, task_type) {
            return Err(e);
        }
        if let Some(e) = validate_notes_length(&config, notes) {
            return Err(e);
        }
        if let Some(e) = self.require_service(call, asset_id, engineer) {
            return Err(e);
        }
        let ghost s = self@;
        let mut asset = self.load_asset(asset_id);
        let mut worker = self.load_engineer(engineer);
        let n: usize = asset.history.len();
        if n as u64 >= config.max_history as u64 {
            let count: u32 = (n - config.max_history as usize) as u32;
            self.notify(Notice::HistoryTrimmed { asset_id, count: count + 1 });
        }
        let now: u64 = call.now;
        let limit: u32 = config.max_submissions_per_hour;
        if !engineer_within_submission_rate(&worker, now, limit) {
            self.notify(Notice::RateExceeded { engineer, asset_id, limit, timestamp: now });
        }
        record_engineer_submission(&mut worker, now);
        engineer_history_add(&mut worker, asset_id, config.max_history);
        let record = MaintenanceRecord {
            asset_id,
            task_type,
            priority,
            notes: read_text(notes),
            engineer,
            timestamp: now,
            cost,
        };
        asset.history = last_records(&asset.history, config.max_history - 1);
        push_record(&mut asset.history, record);
        let increment: u32 = compute_reward(&config, task_type, call.reputation(engineer));
        asset.credits = copy_last(&asset.credits, config.max_history - 1);
        asset.credits.push(increment);
        asset.last_service = Some(now);
        let score: u32 = raise(asset.score, increment);
        proof {
            lemma_scored_wf(asset@, score, now, config.max_history);
            lemma_assets_with(s.engineer(engineer).assets, asset_id, config.max_history);
        }
        set_score(&mut asset, score, now, config.max_history);
        let ghost a = asset@;
        let ghost e = worker@;
        self.store_engineer(engineer, worker);
        self.store_asset(asset_id, asset);
        self.notify(Notice::Maintained { asset_id, engineer, task_type, timestamp: now });
        proof {
            lemma_stored_wf(s, self@, asset_id, a, engineer, e);
        }
        Ok(())
    }

    /// Announces every record of a batch.
    fn notify_batch(&mut self, asset_id: u64, list: &Vec<BatchRecord>, engineer: Address, now: u64)
        ensures
            final(self)@ == (State {
                events: old(self)@.events + Seq::new(
                    list@.len(),
                    |i: int| batch_event(asset_id, batch(list@), i, engineer, now),
                ),
                ..old(self)@
            }),
    {
        let ghost s = self@;
        let ghost added = Seq::new(
            list@.len(),
            |i: int| batch_event(asset_id, batch(list@), i, engineer, now),
        );
        let mut i: usize = 0;
        assert(s.events + added.take(0) =~= s.events);
        while i < list.len()
            invariant
                i <= list@.len(),
                added == Seq::new(
                    list@.len(),
                    |i: int| batch_event(asset_id, batch(list@), i, engineer, now),
                ),
                self@ == (State { events: s.events + added.take(i as int), ..s }),
            decreases list@.len() - i,
        {
            assert(s.events + added.take(i + 1) =~= (s.events + added.take(i as int)).push(
                added[i as int],
            ));
            self.notify(
                Notice::BatchMaintained {
                    asset_id,
                    task_type: list[i].task_type,
                    priority: list[i].priority,
                    engineer,
                    timestamp: now,
                },
            );
            i += 1;
        }
        assert(added.take(added.len() as int) =~= added);
    }

    /// Submits several maintenance records for one asset: all of them, or none.
    pub fn batch_submit_maintenance(
        &mut self,
        call: &Call,
        asset_id: u64,
        list: &Vec<BatchRecord>,
        engineer: Address,
        costs: Option<Vec<Option<u64>>>,
    ) -> (r: Result<(), Abort>)
        requires
            old(self)@.wf(),
        ensures
            outcome(
                r,
                old(self)@,
                final(self)@,
                batch_submitted(
                    old(self)@,
                    call@,
                    asset_id,
                    batch(list@),
                    engineer,
                    costs_view(costs),
                ),
            ),
            final(self)@.wf(),
    {
        if let Some(e) = self.require_entry(call, engineer) {
            return Err(e);
        }
        let config = match self.load_config() {
            Some(c) => c,
            None => return Err(Abort::Error(LifecycleError::NotInitialized)),
        };
        if require_non_empty(list.len() == 0, "records").is_err() {
            return Err(Abort::NoRecords);
        }
        if list.len() as u64 > MAX_BATCH_SIZE as u64 {
            return Err(Abort::Error(LifecycleError::BatchTooLarge));
        }
        if let Some(e) = validate_contents(&config, list) {
            return Err(e);
        }
        if let Some(e) = self.require_service(call, asset_id, engineer) {
            return Err(e);
        }
        let ghost s = self@;
        let mut asset = self.load_asset(asset_id);
        if asset.history.len() as u64 + list.len() as u64 > config.max_history as u64 {
            return Err(Abort::Error(LifecycleError::HistoryCapReached));
        }
        if let Some(c) = &costs {
            if c.len() != list.len() {
                return Err(Abort::Error(LifecycleError::InvalidConfig));
            }
        }
        let reputation: u32 = call.reputation(engineer);
        let score: u32 = match compute_score_after(&config, asset.score, list, reputation) {
            Some(score) => score,
            None => return Err(Abort::Error(LifecycleError::ScoreOverflow)),
        };
        let now: u64 = call.now;
        push_batch(&mut asset.history, asset_id, list, engineer, &costs, now);
        push_rewards(&mut asset.credits, &config, list, reputation);
        asset.last_service = Some(now);
        self.notify_batch(asset_id, list, engineer, now);
        let mut worker = self.load_engineer(engineer);
        engineer_history_add(&mut worker, asset_id, config.max_history);
        proof {
            lemma_score_after(config@, s.asset(asset_id).score, batch(list@), reputation);
            lemma_scored_wf(asset@, score, now, config.max_history);
            lemma_assets_with(s.engineer(engineer).assets, asset_id, config.max_history);
        }
        set_score(&mut asset, score, now, config.max_history);
        let ghost a = asset@;
        let ghost e = worker@;
        self.store_engineer(engineer, worker);
        self.store_asset(asset_id, asset);
        proof {
            lemma_stored_wf(s, self@, asset_id, a, engineer, e);
        }
        Ok(())
    }
}

} // verus!
