//! How the state of the contract is put together from stored parts.

use vstd::prelude::*;

use crate::names::{Address, Symbol};
use crate::state::{Lifecycle, State};
use crate::types::{Asset, Config, Engineer, RecurringTask, TimelockProposal, WasmHash};

verus! {

/// Whether no setting that has to be positive is zero.
fn config_is_sound(c: &Config) -> (b: bool)
    ensures
        b == c@.wf(),
{
    c.max_history > 0 && c.score_increment > 0 && c.decay_rate > 0 && c.decay_interval > 0
        && c.eligibility_threshold > 0 && c.max_notes_length > 0
}

/// Whether no two tasks share a number.
fn tasks_are_distinct(tasks: &Vec<RecurringTask>) -> (b: bool)
    ensures
        b == forall|i: int, j: int|
            0 <= i < j < tasks@.len() ==> (#[trigger] tasks@[i]).task_id != (
            #[trigger] tasks@[j]).task_id,
{
    let n: usize = tasks.len();
    let mut j: usize = 0;
    while j < n
        invariant
            j <= n,
            n == tasks@.len(),
            forall|x: int, y: int|
                0 <= x < y < j ==> (#[trigger] tasks@[x]).task_id != (
                #[trigger] tasks@[y]).task_id,
        decreases n - j,
    {
        let mut i: usize = 0;
        while i < j
            invariant
                i <= j < n,
                n == tasks@.len(),
                forall|x: int| 0 <= x < i ==> (#[trigger] tasks@[x]).task_id != tasks@[j as int].task_id,
            decreases j - i,
        {
            if tasks[i].task_id == tasks[j].task_id {
                return false;
            }
            i += 1;
        }
        j += 1;
    }
    true
}

/// Whether what is kept of an asset is well-formed.
fn asset_is_sound(a: &Asset) -> (b: bool)
    ensures
        b == a@.wf(),
{
    if a.score > 100 || a.history.len() as u64 > u32::MAX as u64 || a.credits.len()
        != a.history.len() {
        return false;
    }
    let mut i: usize = 0;
    while i < a.score_history.len()
        invariant
            i <= a.score_history@.len(),
            forall|j: int|
                0 <= j < i ==> (#[trigger] a@.score_history[j]).score <= 100,
        decreases a.score_history@.len() - i,
    {
        if a.score_history[i].score > 100 {
            assert(a@.score_history[i as int].score > 100);
            return false;
        }
        i += 1;
    }
    let mut k: usize = 0;
    while k < a.valuations.len()
        invariant
            k <= a.valuations@.len(),
            forall|j: int| 0 <= j < k ==> (#[trigger] a@.valuations[j]).1 <= 100,
        decreases a.valuations@.len() - k,
    {
        if a.valuations[k].1 > 100 {
            assert(a@.valuations[k as int].1 > 100);
            return false;
        }
        k += 1;
    }
    let distinct = tasks_are_distinct(&a.tasks);
    assert(a@.tasks == a.tasks@);
    assert(a@.history.len() == a.history@.len());
    distinct
}

/// Whether what is kept of an engineer is well-formed.
fn engineer_is_sound(e: &Engineer) -> (b: bool)
    ensures
        b == e@.wf(),
{
    let n: usize = e.assets.len();
    if n as u64 > u32::MAX as u64 {
        return false;
    }
    let mut j: usize = 0;
    while j < n
        invariant
            j <= n,
            n == e.assets@.len(),
            forall|x: int, y: int| 0 <= x < y < j ==> e.assets@[x] != e.assets@[y],
        decreases n - j,
    {
        let mut i: usize = 0;
        while i < j
            invariant
                i <= j < n,
                n == e.assets@.len(),
                forall|x: int| 0 <= x < i ==> e.assets@[x] != e.assets@[j as int],
            decreases j - i,
        {
            if e.assets[i] == e.assets[j] {
                return false;
            }
            i += 1;
        }
        j += 1;
    }
    true
}

impl Lifecycle {
    /// Puts the settings and the registries into place; refuses them where they cannot have been
    /// stored.
    pub fn restore_config(
        &mut self,
        config: Config,
        asset_registry: Address,
        engineer_registry: Address,
    ) -> (accepted: bool)
        requires
            old(self)@.wf(),
        ensures
            accepted == (config@.wf() && asset_registry != engineer_registry),
            final(self)@ == if accepted {
                (State {
                    config: Some(config@),
                    asset_registry: Some(asset_registry),
                    engineer_registry: Some(engineer_registry),
                    ..old(self)@
                })
            } else {
                old(self)@
            },
            final(self)@.wf(),
    {
        if !config_is_sound(&config) || asset_registry == engineer_registry {
            return false;
        }
        self.store_config(config);
        self.set_asset_registry_addr(asset_registry);
        self.set_engineer_registry_addr(engineer_registry);
        true
    }

    /// Puts the pause and what is pending into place.
    pub fn restore_pending(
        &mut self,
        paused: bool,
        pending_admin: Option<Address>,
        pending_upgrade: Option<WasmHash>,
    )
        requires
            old(self)@.wf(),
        ensures
            final(self)@ == (State { paused, pending_admin, pending_upgrade, ..old(self)@ }),
            final(self)@.wf(),
    {
        self.set_paused(paused);
        self.set_pending_admin(pending_admin);
        self.set_pending_upgrade(pending_upgrade);
    }

    /// Puts a proposal into place.
    pub fn restore_timelock_proposal(&mut self, op: Symbol, p: TimelockProposal)
        requires
            old(self)@.wf(),
        ensures
            final(self)@ == old(self)@.with_timelock(op, p),
            final(self)@.wf(),
    {
        self.store_proposal(op, p);
    }

    /// Puts frequency weights into place.
    pub fn restore_scoring_weights(&mut self, asset_type: Symbol, weights_json: Vec<u8>)
        requires
            old(self)@.wf(),
        ensures
            final(self)@ == (State {
                scoring_weights: old(self)@.scoring_weights.insert(asset_type, weights_json@),
                ..old(self)@
            }),
            final(self)@.wf(),
    {
        self.store_scoring_weights(asset_type, weights_json);
    }

    /// Puts a compliance standard into place.
    pub fn restore_standard(&mut self, asset_type: Symbol, definition_hash: Vec<u8>)
        requires
            old(self)@.wf(),
        ensures
            final(self)@ == (State {
                standards: old(self)@.standards.insert(asset_type, definition_hash@),
                ..old(self)@
            }),
            final(self)@.wf(),
    {
        self.store_standard(asset_type, definition_hash);
    }

    /// Puts what is kept of an asset into place; refuses it where it cannot have been stored.
    pub fn restore_asset(&mut self, asset_id: u64, asset: Asset) -> (accepted: bool)
        requires
            old(self)@.wf(),
        ensures
            accepted == asset@.wf(),
            final(self)@ == if accepted {
                old(self)@.with_asset(asset_id, asset@)
            } else {
                old(self)@
            },
            final(self)@.wf(),
    {
        if !asset_is_sound(&asset) {
            return false;
        }
        self.store_asset(asset_id, asset);
        true
    }

    /// Puts what is kept of an engineer into place; refuses it where it cannot have been stored.
    pub fn restore_engineer(&mut self, address: Address, engineer: Engineer) -> (accepted: bool)
        requires
            old(self)@.wf(),
        ensures
            accepted == engineer@.wf(),
            final(self)@ == if accepted {
                old(self)@.with_engineer(address, engineer@)
            } else {
                old(self)@
            },
            final(self)@.wf(),
    {
        if !engineer_is_sound(&engineer) {
            return false;
        }
        self.store_engineer(address, engineer);
        true
    }
}

} // verus!
