//! What the administrator does to keep the records in order.

use vstd::prelude::*;

use crate::call::{Call, CallView};
use crate::engineers::{engineer_history_remove, forgets, lemma_forgets_wf};
use crate::errors::{Abort, LifecycleError};
use crate::events::{Action, Event, EventView, Notice};
use crate::history::{
    engineers, engineers_between, has_record_at, last_records, similar_pairs, similar_records,
};
use crate::host::{host_bytes, read_bytes};
use crate::lists::{
    copy_last, copy_list, distinct, is_listed, keep_last, lemma_distinct, lemma_filter_distinct,
    lemma_filter_step, same_bytes,
};
use crate::names::{Address, Symbol};
use crate::state::{either, outcome, Lifecycle, State};
use crate::types::{records, AssetView, EngineerView, MaintenanceRecord, RecordView};

verus! {

/// What is kept of engineers, once those of the list no longer have worked on the asset.
pub open spec fn forgetting(
    m: Map<Address, EngineerView>,
    list: Seq<Address>,
    asset_id: u64,
) -> Map<Address, EngineerView> {
    m.map_entries(
        |a: Address, e: EngineerView|
            if list.contains(a) {
                forgets(e, asset_id)
            } else {
                e
            },
    )
}

/// Tells the engineers who have no record in `h` apart.
pub open spec fn absent_from(h: Seq<RecordView>) -> spec_fn(Address) -> bool {
    |a: Address| !engineers(h).contains(a)
}

/// The engineers all of whose records are among the first `n`, each once.
pub open spec fn dropped_engineers(h: Seq<RecordView>, n: int) -> Seq<Address> {
    distinct(engineers(h.take(n))).filter(absent_from(h.skip(n)))
}

/// What pruning the histories of an asset leads to: only their latest entries stay, and an
/// engineer of whom no record stays no longer has worked on the asset.
pub open spec fn prune_asset_history_result(
    s: State,
    call: CallView,
    admin: Address,
    asset_id: u64,
) -> Result<State, Abort> {
    let a = s.asset(asset_id);
    let max = s.config->0.max_history;
    match either(s.entry_check(call, admin), s.admin_check(admin)) {
        Some(e) => Err(e),
        None => {
            let pruned = if a.history.len() > max {
                let start = a.history.len() - max;
                State {
                    engineers: forgetting(
                        s.engineers,
                        dropped_engineers(a.history, start),
                        asset_id,
                    ),
                    ..s
                }.notify(
                    Notice::HistoryPruned {
                        asset_id,
                        count: start as u32,
                        oldest: a.history[0].timestamp,
                    },
                )
            } else {
                s
            };
            Ok(
                pruned.with_asset(
                    asset_id,
                    AssetView {
                        history: keep_last(a.history, max as nat),
                        credits: keep_last(a.credits, max as nat),
                        score_history: keep_last(a.score_history, max as nat),
                        valuations: keep_last(a.valuations, max as nat),
                        ..a
                    },
                ).notify(Notice::PruneDone { admin, asset_id }).audit(
                    admin,
                    call.now,
                    Action::Prune { asset_id },
                ),
            )
        },
    }
}

/// What purging an asset leads to: its history, its scores and its valuations are gone, and no
/// engineer of its history has worked on it any longer.
pub open spec fn purge_asset_data_result(
    s: State,
    call: CallView,
    admin: Address,
    asset_id: u64,
) -> Result<State, Abort> {
    let a = s.asset(asset_id);
    match either(s.entry_check(call, admin), s.admin_check(admin)) {
        Some(e) => Err(e),
        None => Ok(
            State {
                engineers: forgetting(s.engineers, distinct(engineers(a.history)), asset_id),
                ..s
            }.with_asset(
                asset_id,
                AssetView {
                    history: Seq::empty(),
                    credits: Seq::empty(),
                    score: 0,
                    score_history: Seq::empty(),
                    valuations: Seq::empty(),
                    last_update: None,
                    last_service: None,
                    ..a
                },
            ).notify(Notice::PurgeDone { admin, asset_id }).audit(
                admin,
                call.now,
                Action::Purge { asset_id },
            ),
        ),
    }
}

/// Whether some record of the asset has the time.
pub open spec fn recorded_at(h: Seq<RecordView>, timestamp: u64) -> bool {
    exists|i: int| 0 <= i < h.len() && (#[trigger] h[i]).timestamp == timestamp
}

/// What marking a record as a duplicate leads to.
pub open spec fn mark_duplicate_result(
    s: State,
    call: CallView,
    admin: Address,
    asset_id: u64,
    primary_id: u64,
    duplicate_id: u64,
) -> Result<State, Abort> {
    let a = s.asset(asset_id);
    match either(s.entry_check(call, admin), s.admin_check(admin)) {
        Some(e) => Err(e),
        None => if !recorded_at(a.history, duplicate_id) {
            Err(Abort::Error(LifecycleError::DuplicateRecordNotFound))
        } else {
            Ok(
                s.with_asset(
                    asset_id,
                    AssetView { duplicates: a.duplicates.push(duplicate_id), ..a },
                ).notify(
                    Notice::DuplicateMarked {
                        asset_id,
                        primary_id,
                        duplicate_id,
                        timestamp: call.now,
                    },
                ),
            )
        },
    }
}

/// What registering a compliance standard leads to.
pub open spec fn register_standard_result(
    s: State,
    call: CallView,
    admin: Address,
    asset_type: Symbol,
    definition_hash: Seq<u8>,
) -> Result<State, Abort> {
    match either(s.entry_check(call, admin), s.admin_check(admin)) {
        Some(e) => Err(e),
        None => if s.standards.contains_key(asset_type) {
            Err(Abort::Error(LifecycleError::StandardAlreadyRegistered))
        } else {
            Ok(
                State {
                    standards: s.standards.insert(asset_type, definition_hash),
                    ..s
                }.announce(EventView::StandardRegistered { asset_type, definition_hash }),
            )
        },
    }
}

/// The engineers all of whose records are among the first `n`, each once.
fn find_dropped_engineers(history: &Vec<MaintenanceRecord>, n: usize) -> (r: Vec<Address>)
    requires
        n <= history@.len(),
    ensures
        r@ == dropped_engineers(records(history@), n as int),
{
    let ghost h = records(history@);
    let len: usize = history.len();
    let retained: Vec<Address> = engineers_between(history, n, len);
    let early: Vec<Address> = engineers_between(history, 0, n);
    let ghost p = absent_from(h.skip(n as int));
    proof {
        assert(h.subrange(0, n as int) =~= h.take(n as int));
        assert(h.subrange(n as int, len as int) =~= h.skip(n as int));
        lemma_distinct(engineers(h.skip(n as int)));
        reveal(Seq::filter);
        assert(early@.take(0).filter(p) =~= Seq::empty());
    }
    let mut r: Vec<Address> = Vec::new();
    let mut i: usize = 0;
    while i < early.len()
        invariant
            i <= early@.len(),
            p == absent_from(h.skip(n as int)),
            retained@ == distinct(engineers(h.skip(n as int))),
            forall|x: Address| #[trigger]
                distinct(engineers(h.skip(n as int))).contains(x) <==> engineers(
                    h.skip(n as int),
                ).contains(x),
            r@ == early@.take(i as int).filter(p),
        decreases early@.len() - i,
    {
        proof {
            lemma_filter_step(early@, i as int, p);
        }
        if !is_listed(&retained, early[i]) {
            r.push(early[i]);
        }
        i += 1;
    }
    assert(early@.take(early@.len() as int) =~= early@);
    r
}

impl Lifecycle {
    /// Lets the engineers of the list no longer have worked on the asset.
    fn forget_asset(&mut self, list: &Vec<Address>, asset_id: u64)
        requires
            list@.no_duplicates(),
            old(self)@.wf(),
        ensures
            final(self)@ == (State {
                engineers: forgetting(old(self)@.engineers, list@, asset_id),
                ..old(self)@
            }),
            final(self)@.wf(),
    {
        let ghost s = self@;
        let mut i: usize = 0;
        assert(self@.engineers =~= forgetting(s.engineers, list@.take(0), asset_id));
        while i < list.len()
            invariant
                i <= list@.len(),
                list@.no_duplicates(),
                s.wf(),
                self@.wf(),
                self@ == (State {
                    engineers: forgetting(s.engineers, list@.take(i as int), asset_id),
                    ..s
                }),
            decreases list@.len() - i,
        {
            let engineer: Address = list[i];
            let ghost before = list@.take(i as int);
            let ghost after = list@.take(i + 1);
            proof {
                assert(after =~= before.push(engineer));
                assert(!before.contains(engineer));
                assert(after[i as int] == engineer);
                assert forall|x: Address| x != engineer implies after.contains(x)
                    == before.contains(x) by {
                    if before.contains(x) {
                        let k = choose|k: int| 0 <= k < before.len() && before[k] == x;
                        assert(after[k] == x);
                    }
                    if after.contains(x) {
                        let k = choose|k: int| 0 <= k < after.len() && after[k] == x;
                        assert(before[k] == x);
                    }
                }
            }
            if self.knows_engineer(engineer) {
                let mut worker = self.load_engineer(engineer);
                proof {
                    lemma_forgets_wf(worker@, asset_id);
                }
                engineer_history_remove(&mut worker, asset_id);
                self.store_engineer(engineer, worker);
            }
            assert(self@.engineers =~= forgetting(s.engineers, after, asset_id));
            i += 1;
        }
        assert(list@.take(list@.len() as int) =~= list@);
    }

    /// Cuts the histories of the asset to the length that is set.
    pub fn prune_asset_history(&mut self, call: &Call, admin: Address, asset_id: u64) -> (r: Result<
        (),
        Abort,
    >)
        requires
            old(self)@.wf(),
        ensures
            outcome(
                r,
                old(self)@,
                final(self)@,
                prune_asset_history_result(old(self)@, call@, admin, asset_id),
            ),
            final(self)@.wf(),
    {
        if let Some(e) = self.require_entry(call, admin) {
            return Err(e);
        }
        if let Some(e) = self.require_admin(admin) {
            return Err(e);
        }
        let max: u32 = match self.load_config() {
            Some(c) => c.max_history,
            None => return Err(Abort::Error(LifecycleError::NotInitialized)),
        };
        let mut asset = self.load_asset(asset_id);
        let ghost a = asset@;
        let n: usize = asset.history.len();
        assert(records(asset.history@).len() == n);
        if n as u64 > max as u64 {
            let start: usize = n - max as usize;
            let oldest: u64 = asset.history[0].timestamp;
            let dropped: Vec<Address> = find_dropped_engineers(&asset.history, start);
            proof {
                lemma_distinct(engineers(a.history.take(start as int)));
                lemma_filter_distinct(
                    distinct(engineers(a.history.take(start as int))),
                    absent_from(a.history.skip(start as int)),
                );
            }
            self.forget_asset(&dropped, asset_id);
            self.notify(Notice::HistoryPruned { asset_id, count: start as u32, oldest });
        }
        asset.history = last_records(&asset.history, max);
        asset.credits = copy_last(&asset.credits, max);
        asset.score_history = copy_last(&asset.score_history, max);
        asset.valuations = copy_last(&asset.valuations, max);
        assert(asset@.wf()) by {
            let b = asset@;
            assert forall|i: int| 0 <= i < b.score_history.len() implies (
            #[trigger] b.score_history[i]).score <= 100 by {
                if a.score_history.len() > max {
                    assert(b.score_history[i] == a.score_history[i + a.score_history.len() - max]);
                }
            }
            assert forall|i: int| 0 <= i < b.valuations.len() implies (
            #[trigger] b.valuations[i]).1 <= 100 by {
                if a.valuations.len() > max {
                    assert(b.valuations[i] == a.valuations[i + a.valuations.len() - max]);
                }
            }
        }
        self.store_asset(asset_id, asset);
        self.notify(Notice::PruneDone { admin, asset_id });
        self.audit(admin, call.now, Action::Prune { asset_id });
        Ok(())
    }

    /// Removes the history, the scores and the valuations of the asset.
    pub fn purge_asset_data(&mut self, call: &Call, admin: Address, asset_id: u64) -> (r: Result<
        (),
        Abort,
    >)
        requires
            old(self)@.wf(),
        ensures
            outcome(
                r,
                old(self)@,
                final(self)@,
                purge_asset_data_result(old(self)@, call@, admin, asset_id),
            ),
            final(self)@.wf(),
    {
        if let Some(e) = self.require_entry(call, admin) {
            return Err(e);
        }
        if let Some(e) = self.require_admin(admin) {
            return Err(e);
        }
        let mut asset = self.load_asset(asset_id);
        let ghost a = asset@;
        let n: usize = asset.history.len();
        let list: Vec<Address> = engineers_between(&asset.history, 0, n);
        proof {
            assert(a.history.subrange(0, n as int) =~= a.history);
            lemma_distinct(engineers(a.history));
        }
        self.forget_asset(&list, asset_id);
        asset.history = Vec::new();
        asset.credits = Vec::new();
        asset.score = 0;
        asset.score_history = Vec::new();
        asset.valuations = Vec::new();
        asset.last_update = None;
        asset.last_service = None;
        assert(asset@.history =~= Seq::empty());
        self.store_asset(asset_id, asset);
        self.notify(Notice::PurgeDone { admin, asset_id });
        self.audit(admin, call.now, Action::Purge { asset_id });
        Ok(())
    }

    /// The times of all pairs of records of the asset that look like one event recorded twice.
    pub fn get_duplicate_maintenance_events(&self, asset_id: u64, window_seconds: u64) -> (r: Vec<
        (u64, u64),
    >)
        ensures
            r@ == similar_pairs(
                self@.asset(asset_id).history,
                self@.asset(asset_id).history.len() as int,
                window_seconds,
            ),
    {
        let asset = self.load_asset(asset_id);
        assert(records(asset.history@).len() == asset.history@.len());
        similar_records(&asset.history, window_seconds)
    }

    /// Marks the record of the asset with the time `duplicate_id` as a duplicate.
    pub fn mark_maintenance_as_duplicate(
        &mut self,
        call: &Call,
        admin: Address,
        asset_id: u64,
        primary_id: u64,
        duplicate_id: u64,
    ) -> (r: Result<(), Abort>)
        requires
            old(self)@.wf(),
        ensures
            outcome(
                r,
                old(self)@,
                final(self)@,
                mark_duplicate_result(
                    old(self)@,
                    call@,
                    admin,
                    asset_id,
                    primary_id,
                    duplicate_id,
                ),
            ),
            final(self)@.wf(),
    {
        if let Some(e) = self.require_entry(call, admin) {
            return Err(e);
        }
        if let Some(e) = self.require_admin(admin) {
            return Err(e);
        }
        let mut asset = self.load_asset(asset_id);
        assert(records(asset.history@).len() == asset.history@.len());
        if !has_record_at(&asset.history, duplicate_id) {
            return Err(Abort::Error(LifecycleError::DuplicateRecordNotFound));
        }
        asset.duplicates.push(duplicate_id);
        self.store_asset(asset_id, asset);
        self.notify(
            Notice::DuplicateMarked { asset_id, primary_id, duplicate_id, timestamp: call.now },
        );
        Ok(())
    }

    /// Registers the compliance standard of the asset type.
    pub fn register_standard(
        &mut self,
        call: &Call,
        admin: Address,
        asset_type: Symbol,
        definition_hash: &soroban_sdk::Bytes,
    ) -> (r: Result<(), Abort>)
        requires
            old(self)@.wf(),
        ensures
            outcome(
                r,
                old(self)@,
                final(self)@,
                register_standard_result(
                    old(self)@,
                    call@,
                    admin,
                    asset_type,
                    host_bytes(*definition_hash),
                ),
            ),
            final(self)@.wf(),
    {
        if let Some(e) = self.require_entry(call, admin) {
            return Err(e);
        }
        if let Some(e) = self.require_admin(admin) {
            return Err(e);
        }
        if self.load_standard(asset_type).is_some() {
            return Err(Abort::Error(LifecycleError::StandardAlreadyRegistered));
        }
        self.store_standard(asset_type, read_bytes(definition_hash));
        self.announce(
            Event::StandardRegistered { asset_type, definition_hash: read_bytes(definition_hash) },
        );
        Ok(())
    }

    /// Whether the proof matches the compliance standard for the type of the asset. A standard
    /// covers every task, so the task type does not matter.
    pub fn validate_maintenance_compliance(
        &self,
        call: &Call,
        asset_id: u64,
        _task_type: Symbol,
        proof_hash: &soroban_sdk::Bytes,
    ) -> (r: Result<bool, Abort>)
        ensures
            r == if self@.asset_registry is None {
                Err::<bool, Abort>(Abort::Error(LifecycleError::NotInitialized))
            } else {
                Ok(
                    call@.assets.contains_key(asset_id) && self@.standards.contains_key(
                        call@.assets[asset_id].asset_type,
                    ) && self@.standards[call@.assets[asset_id].asset_type] == host_bytes(
                        *proof_hash,
                    ),
                )
            },
    {
        if let Err(e) = self.get_asset_registry() {
            return Err(e);
        }
        match call.asset(asset_id) {
            None => Ok(false),
            Some(info) => match self.load_standard(info.asset_type) {
                None => Ok(false),
                Some(standard) => Ok(same_bytes(standard, &read_bytes(proof_hash))),
            },
        }
    }

    /// The compliance standard of the asset type; empty where there is none.
    pub fn get_maintenance_standard(&self, asset_type: Symbol) -> (r: Vec<u8>)
        ensures
            r@ == if self@.standards.contains_key(asset_type) {
                self@.standards[asset_type]
            } else {
                Seq::empty()
            },
    {
        match self.load_standard(asset_type) {
            Some(standard) => copy_list(standard),
            None => Vec::new(),
        }
    }
}

} // verus!
