//! The scores of assets: how they are brought up to date, and what is said of them.

use vstd::prelude::*;

use crate::call::{AssetInfo, Call, CallView};
use crate::errors::{Abort, LifecycleError};
use crate::events::{Action, Notice};
use crate::history::{is_latest, latest_record};
use crate::lists::{copy_last, copy_list, copy_page, keep_last, lemma_filter_step, page};
use crate::names::Address;
use crate::scoring::{
    collateral_score, compute_decayed, compute_faded, compute_read_only_collateral_score,
    compute_recency, decayed, elapsed_intervals, faded, intervals, lemma_scored_wf, recency, scored,
    set_score, weights_of,
};
use crate::state::{either, error, outcome, Lifecycle, State};
use crate::types::{records, AssetView, HealthSnapshot, RecordView, ScoreEntry};

verus! {

/// The state after the score of the asset has been brought up to date.
pub open spec fn after_decay(s: State, call: CallView, asset_id: u64) -> State {
    let a = s.asset(asset_id);
    let c = s.config->0;
    if a.frozen || a.score == 0 || intervals(a, c, call.now) == 0 {
        s
    } else {
        let score = decayed(a, c, call.now);
        s.with_asset(asset_id, scored(a, score, call.now, c.max_history)).notify(
            Notice::Decayed {
                asset_id,
                old_score: a.score,
                new_score: score,
                timestamp: call.now,
            },
        )
    }
}

/// The score that bringing it up to date leads to.
pub open spec fn decay_value(s: State, call: CallView, asset_id: u64) -> u32 {
    if s.asset(asset_id).frozen {
        0
    } else {
        decayed(s.asset(asset_id), s.config->0, call.now)
    }
}

/// Why the score cannot be brought up to date.
pub open spec fn decay_check(s: State, asset_id: u64) -> Option<Abort> {
    if s.paused {
        error(LifecycleError::Paused)
    } else if !s.asset(asset_id).frozen && s.config is None {
        error(LifecycleError::NotInitialized)
    } else {
        None
    }
}

/// What forcing the decay leads to.
pub open spec fn force_decay_result(
    s: State,
    call: CallView,
    admin: Address,
    asset_id: u64,
) -> Result<
    State,
    Abort,
> {
    match either(
        s.entry_check(call, admin),
        either(s.admin_check(admin), decay_check(s, asset_id)),
    ) {
        Some(e) => Err(e),
        None => Ok(after_decay(s, call, asset_id)),
    }
}

/// What resetting the score leads to: the asset starts again without a history.
pub open spec fn reset_score_result(
    s: State,
    call: CallView,
    admin: Address,
    asset_id: u64,
) -> Result<
    State,
    Abort,
> {
    match either(s.entry_check(call, admin), s.quorum_check(call, admin)) {
        Some(e) => Err(e),
        None => Ok(
            s.with_asset(
                asset_id,
                scored(
                    AssetView {
                        history: Seq::empty(),
                        credits: Seq::empty(),
                        ..s.asset(asset_id)
                    },
                    0,
                    call.now,
                    s.config->0.max_history,
                ),
            ).notify(Notice::ScoreReset { asset_id, admin, timestamp: call.now }).audit(
                admin,
                call.now,
                Action::ScoreReset { asset_id },
            ),
        ),
    }
}

/// Whether the asset cannot be collateral, whatever its history.
pub open spec fn worthless(s: State, info: AssetInfo, asset_id: u64) -> bool {
    info.deprecated || s.asset(asset_id).frozen
}

/// The frequency weights for the asset.
pub open spec fn weights_text(s: State, info: AssetInfo) -> Option<Seq<u8>> {
    if s.scoring_weights.contains_key(info.asset_type) {
        Some(s.scoring_weights[info.asset_type])
    } else {
        None
    }
}

/// The collateral score of a registered asset, if that is its recency score.
pub open spec fn score_given(
    s: State,
    info: AssetInfo,
    now: u64,
    asset_id: u64,
    recency_score: u32,
) -> u32 {
    if worthless(s, info, asset_id) {
        0
    } else {
        collateral_score(
            s.asset(asset_id),
            s.config->0,
            weights_of(weights_text(s, info)),
            now,
            recency_score,
        )
    }
}

/// The collateral score of a registered asset.
pub open spec fn current_score(s: State, info: AssetInfo, now: u64, asset_id: u64) -> u32 {
    score_given(s, info, now, asset_id, recency(s.asset(asset_id), now))
}

/// Whether a registered asset is eligible as collateral.
pub open spec fn eligible(s: State, info: AssetInfo, now: u64, asset_id: u64) -> bool {
    current_score(s, info, now, asset_id) >= s.config->0.eligibility_threshold
}

/// The decayed score of a registered asset.
pub open spec fn stored_score(s: State, info: AssetInfo, now: u64, asset_id: u64) -> u32 {
    if worthless(s, info, asset_id) {
        0
    } else {
        decayed(s.asset(asset_id), s.config->0, now)
    }
}

/// Why the score of the asset cannot be told.
pub open spec fn score_check(s: State, call: CallView, asset_id: u64) -> Option<Abort> {
    either(s.asset_check(call, asset_id), s.init_check())
}

/// The outcome of a question, and what the answer is where there is one.
pub open spec fn answer<T>(refusal: Option<Abort>, value: T) -> Result<T, Abort> {
    match refusal {
        Some(e) => Err(e),
        None => Ok(value),
    }
}

/// Tells the registered assets apart.
pub open spec fn registered(call: CallView) -> spec_fn(u64) -> bool {
    |id: u64| call.assets.contains_key(id)
}

/// The decayed score of an asset, behind its number.
pub open spec fn numbered_score(s: State, call: CallView) -> spec_fn(u64) -> (u64, u32) {
    |id: u64| (id, stored_score(s, call.assets[id], call.now, id))
}

/// Whether each asset is eligible as collateral.
pub open spec fn eligibilities(s: State, call: CallView, ids: Seq<u64>) -> Seq<bool> {
    ids.map_values(|id: u64| eligible(s, call.assets[id], call.now, id))
}

/// Whether every asset of the list is registered.
pub open spec fn all_registered(call: CallView, ids: Seq<u64>) -> bool {
    forall|i: int| 0 <= i < ids.len() ==> call.assets.contains_key(#[trigger] ids[i])
}

/// The latest time of a record; zero where there is none.
pub open spec fn is_last_service(h: Seq<RecordView>, t: u64) -> bool {
    if h.len() == 0 {
        t == 0
    } else {
        exists|i: int| #[trigger] is_latest(h, i) && t == h[i].timestamp
    }
}

impl Lifecycle {
    /// Brings the score of the asset up to date, and tells it.
    pub fn decay_score(&mut self, call: &Call, asset_id: u64) -> (r: Result<u32, Abort>)
        requires
            old(self)@.wf(),
        ensures
            match decay_check(old(self)@, asset_id) {
                Some(e) => r == Err::<u32, Abort>(e) && final(self)@ == old(self)@,
                None => r == Ok::<u32, Abort>(decay_value(old(self)@, call@, asset_id))
                    && final(self)@ == after_decay(old(self)@, call@, asset_id),
            },
            final(self)@.wf(),
    {
        if let Some(e) = self.ensure_not_paused() {
            return Err(e);
        }
        let mut asset = self.load_asset(asset_id);
        if asset.frozen {
            return Ok(0);
        }
        let config = match self.load_config() {
            Some(c) => c,
            None => return Err(Abort::Error(LifecycleError::NotInitialized)),
        };
        let now: u64 = call.now;
        let old_score: u32 = asset.score;
        let new_score: u32 = compute_decayed(&asset, &config, now);
        if old_score == 0 || elapsed_intervals(&asset, &config, now) == 0 {
            return Ok(new_score);
        }
        proof {
            lemma_scored_wf(asset@, new_score, now, config.max_history);
        }
        set_score(&mut asset, new_score, now, config.max_history);
        self.store_asset(asset_id, asset);
        self.notify(Notice::Decayed { asset_id, old_score, new_score, timestamp: now });
        Ok(new_score)
    }

    /// Lets the administrator bring the score of the asset up to date.
    pub fn force_decay(&mut self, call: &Call, admin: Address, asset_id: u64) -> (r: Result<
        (),
        Abort,
    >)
        requires
            old(self)@.wf(),
        ensures
            outcome(
                r,
                old(self)@,
                final(self)@,
                force_decay_result(old(self)@, call@, admin, asset_id),
            ),
            final(self)@.wf(),
    {
        if let Some(e) = self.require_entry(call, admin) {
            return Err(e);
        }
        if let Some(e) = self.require_admin(admin) {
            return Err(e);
        }
        match self.decay_score(call, asset_id) {
            Ok(_) => Ok(()),
            Err(e) => Err(e),
        }
    }

    /// Resets the score of the asset to zero, and clears its history.
    pub fn reset_score(&mut self, call: &Call, admin: Address, asset_id: u64) -> (r: Result<
        (),
        Abort,
    >)
        requires
            old(self)@.wf(),
        ensures
            outcome(
                r,
                old(self)@,
                final(self)@,
                reset_score_result(old(self)@, call@, admin, asset_id),
            ),
            final(self)@.wf(),
    {
        if let Some(e) = self.require_entry(call, admin) {
            return Err(e);
        }
        if let Some(e) = self.require_signers(call, admin) {
            return Err(e);
        }
        let config = match self.load_config() {
            Some(c) => c,
            None => return Err(Abort::Error(LifecycleError::NotInitialized)),
        };
        let now: u64 = call.now;
        let mut asset = self.load_asset(asset_id);
        asset.history = Vec::new();
        asset.credits = Vec::new();
        assert(asset@.history =~= Seq::empty());
        proof {
            lemma_scored_wf(asset@, 0, now, config.max_history);
        }
        set_score(&mut asset, 0, now, config.max_history);
        self.store_asset(asset_id, asset);
        self.notify(Notice::ScoreReset { asset_id, admin, timestamp: now });
        self.audit(admin, now, Action::ScoreReset { asset_id });
        Ok(())
    }

    /// The recency score of the asset: what its records add up to, each fading with its age.
    pub fn compute_decay(&self, call: &Call, asset_id: u64) -> (r: u32)
        requires
            self@.wf(),
        ensures
            r == recency(self@.asset(asset_id), call@.now),
    {
        compute_recency(&self.load_asset(asset_id), call.now)
    }

    /// What the registry says of the asset, where its score can be told.
    fn begin_score(&self, call: &Call, asset_id: u64) -> (r: Result<AssetInfo, Abort>)
        ensures
            r == answer(score_check(self@, call@, asset_id), call@.assets[asset_id]),
    {
        let info = match self.verify_asset_exists(call, asset_id) {
            Ok(info) => info,
            Err(e) => return Err(e),
        };
        if self.load_config().is_none() {
            return Err(Abort::Error(LifecycleError::NotInitialized));
        }
        Ok(info)
    }

    /// The collateral score of a registered asset, if that is its recency score.
    fn score_with(&self, info: AssetInfo, now: u64, asset_id: u64, recency_score: u32) -> (r: u32)
        requires
            self@.wf(),
            self@.config is Some,
        ensures
            r == score_given(self@, info, now, asset_id, recency_score),
    {
        let asset = self.load_asset(asset_id);
        if info.deprecated || asset.frozen {
            return 0;
        }
        match self.load_config() {
            None => 0,
            Some(c) => compute_read_only_collateral_score(
                &asset,
                &c,
                self.load_scoring_weights(info.asset_type),
                now,
                recency_score,
            ),
        }
    }

    /// The collateral score of a registered asset.
    fn score_of(&self, info: AssetInfo, now: u64, asset_id: u64) -> (r: u32)
        requires
            self@.wf(),
            self@.config is Some,
        ensures
            r == current_score(self@, info, now, asset_id),
    {
        let recency_score: u32 = compute_recency(&self.load_asset(asset_id), now);
        self.score_with(info, now, asset_id, recency_score)
    }

    /// The decayed score of a registered asset.
    fn stored_score_of(&self, info: AssetInfo, now: u64, asset_id: u64) -> (r: u32)
        requires
            self@.wf(),
            self@.config is Some,
        ensures
            r == stored_score(self@, info, now, asset_id),
    {
        let asset = self.load_asset(asset_id);
        if info.deprecated || asset.frozen {
            return 0;
        }
        match self.load_config() {
            None => 0,
            Some(c) => compute_decayed(&asset, &c, now),
        }
    }

    /// The collateral score of the asset, if that is its recency score.
    pub fn collateral_score_given(&self, call: &Call, asset_id: u64, recency_score: u32) -> (r:
        Result<u32, Abort>)
        requires
            self@.wf(),
        ensures
            r == answer(
                score_check(self@, call@, asset_id),
                score_given(self@, call@.assets[asset_id], call@.now, asset_id, recency_score),
            ),
    {
        match self.begin_score(call, asset_id) {
            Err(e) => Err(e),
            Ok(info) => Ok(self.score_with(info, call.now, asset_id, recency_score)),
        }
    }

    /// The collateral score of the asset.
    pub fn get_collateral_score(&self, call: &Call, asset_id: u64) -> (r: Result<u32, Abort>)
        requires
            self@.wf(),
        ensures
            r == answer(
                score_check(self@, call@, asset_id),
                current_score(self@, call@.assets[asset_id], call@.now, asset_id),
            ),
    {
        match self.begin_score(call, asset_id) {
            Err(e) => Err(e),
            Ok(info) => Ok(self.score_of(info, call.now, asset_id)),
        }
    }

    /// The latest valuation of the asset and its time; the collateral score and the time of the
    /// call where there is none.
    pub fn get_collateral_valuation(&self, call: &Call, asset_id: u64) -> (r: Result<
        (u64, u64),
        Abort,
    >)
        requires
            self@.wf(),
        ensures
            ({
                let v = self@.asset(asset_id).valuations;
                let score = current_score(self@, call@.assets[asset_id], call@.now, asset_id);
                r == answer(
                    score_check(self@, call@, asset_id),
                    if v.len() == 0 {
                        (score as u64, call@.now)
                    } else {
                        (v.last().1, v.last().0)
                    },
                )
            }),
    {
        let value: u32 = match self.get_collateral_score(call, asset_id) {
            Ok(score) => score,
            Err(e) => return Err(e),
        };
        let asset = self.load_asset(asset_id);
        let n: usize = asset.valuations.len();
        if n == 0 {
            Ok((value as u64, call.now))
        } else {
            let last: (u64, u64) = asset.valuations[n - 1];
            Ok((last.1, last.0))
        }
    }

    /// The valuations of the asset, each with its time before it, oldest first.
    pub fn get_valuation_history(&self, call: &Call, asset_id: u64) -> (r: Result<
        Vec<(u64, u64)>,
        Abort,
    >)
        ensures
            match self@.asset_check(call@, asset_id) {
                Some(e) => r == Err::<Vec<(u64, u64)>, Abort>(e),
                None => r matches Ok(list) && list@ == self@.asset(asset_id).valuations,
            },
    {
        match self.verify_asset_exists(call, asset_id) {
            Err(e) => Err(e),
            Ok(_) => Ok(copy_list(&self.load_asset(asset_id).valuations)),
        }
    }

    /// The decayed score of the asset, where it is registered.
    pub fn get_collateral_score_opt(&self, call: &Call, asset_id: u64) -> (r: Result<
        Option<u32>,
        Abort,
    >)
        requires
            self@.wf(),
        ensures
            r == if self@.asset_registry is None {
                Err::<Option<u32>, Abort>(Abort::Error(LifecycleError::NotInitialized))
            } else if !call@.assets.contains_key(asset_id) {
                Ok(None)
            } else {
                Ok(Some(stored_score(self@, call@.assets[asset_id], call@.now, asset_id)))
            },
    {
        if let Err(e) = self.get_asset_registry() {
            return Err(e);
        }
        match call.asset(asset_id) {
            None => Ok(None),
            Some(info) => Ok(Some(self.stored_score_of(info, call.now, asset_id))),
        }
    }

    /// The decayed scores of those of the assets that are registered, each behind its number.
    pub fn get_collateral_score_batch(&self, call: &Call, asset_ids: &Vec<u64>) -> (r: Result<
        Vec<(u64, u32)>,
        Abort,
    >)
        requires
            self@.wf(),
        ensures
            match self@.init_check() {
                Some(e) => r == Err::<Vec<(u64, u32)>, Abort>(e),
                None => r matches Ok(list) && list@ == asset_ids@.filter(
                    registered(call@),
                ).map_values(numbered_score(self@, call@)),
            },
    {
        if self.load_config().is_none() {
            return Err(Abort::Error(LifecycleError::NotInitialized));
        }
        let ghost p = registered(call@);
        let ghost f = numbered_score(self@, call@);
        let mut list: Vec<(u64, u32)> = Vec::new();
        let mut i: usize = 0;
        proof {
            reveal(Seq::filter);
            assert(asset_ids@.take(0).filter(p).map_values(f) =~= Seq::empty());
        }
        while i < asset_ids.len()
            invariant
                i <= asset_ids@.len(),
                self@.wf(),
                self@.config is Some,
                p == registered(call@),
                f == numbered_score(self@, call@),
                list@ == asset_ids@.take(i as int).filter(p).map_values(f),
            decreases asset_ids@.len() - i,
        {
            let id: u64 = asset_ids[i];
            proof {
                lemma_filter_step(asset_ids@, i as int, p);
                let s = asset_ids@.take(i as int).filter(p);
                assert(s.push(id).map_values(f) =~= s.map_values(f).push(f(id)));
            }
            if let Some(info) = call.asset(id) {
                list.push((id, self.stored_score_of(info, call.now, id)));
            }
            i += 1;
        }
        assert(asset_ids@.take(asset_ids@.len() as int) =~= asset_ids@);
        Ok(list)
    }

    /// Up to `limit` scores that the asset has reached, from place `offset` on, oldest first. They
    /// are told whether or not the asset is still registered.
    pub fn get_score_history(&self, asset_id: u64, offset: u32, limit: u32) -> (r: Result<
        Vec<ScoreEntry>,
        Abort,
    >)
        ensures
            if self@.asset_registry is None {
                r == Err::<Vec<ScoreEntry>, Abort>(Abort::Error(LifecycleError::NotInitialized))
            } else {
                r matches Ok(list) && list@ == page(
                    self@.asset(asset_id).score_history,
                    offset as nat,
                    limit as nat,
                )
            },
    {
        match self.get_asset_registry() {
            Err(e) => Err(e),
            Ok(_) => Ok(copy_page(&self.load_asset(asset_id).score_history, offset, limit)),
        }
    }

    /// The last `n` scores that the asset has reached, oldest first.
    pub fn get_score_trend(&self, call: &Call, asset_id: u64, n: u32) -> (r: Result<
        Vec<ScoreEntry>,
        Abort,
    >)
        ensures
            match self@.asset_check(call@, asset_id) {
                Some(e) => r == Err::<Vec<ScoreEntry>, Abort>(e),
                None => r matches Ok(list) && list@ == keep_last(
                    self@.asset(asset_id).score_history,
                    n as nat,
                ),
            },
    {
        match self.verify_asset_exists(call, asset_id) {
            Err(e) => Err(e),
            Ok(_) => Ok(copy_last(&self.load_asset(asset_id).score_history, n)),
        }
    }

    /// Whether the asset is eligible as collateral.
    pub fn is_collateral_eligible(&self, call: &Call, asset_id: u64) -> (r: Result<bool, Abort>)
        requires
            self@.wf(),
        ensures
            r == answer(
                score_check(self@, call@, asset_id),
                eligible(self@, call@.assets[asset_id], call@.now, asset_id),
            ),
    {
        let info = match self.begin_score(call, asset_id) {
            Err(e) => return Err(e),
            Ok(info) => info,
        };
        let score: u32 = self.score_of(info, call.now, asset_id);
        match self.load_config() {
            None => Err(Abort::Error(LifecycleError::NotInitialized)),
            Some(c) => Ok(score >= c.eligibility_threshold),
        }
    }

    /// Whether each asset is eligible as collateral.
    pub fn batch_is_collateral_eligible(&self, call: &Call, asset_ids: &Vec<u64>) -> (r: Result<
        Vec<bool>,
        Abort,
    >)
        requires
            self@.wf(),
        ensures
            if self@.config is None {
                r == Err::<Vec<bool>, Abort>(Abort::Error(LifecycleError::NotInitialized))
            } else if !all_registered(call@, asset_ids@) {
                r == Err::<Vec<bool>, Abort>(Abort::Error(LifecycleError::AssetNotFound))
            } else {
                r matches Ok(b) && b@ == eligibilities(self@, call@, asset_ids@)
            },
    {
        let threshold: u32 = match self.load_config() {
            None => return Err(Abort::Error(LifecycleError::NotInitialized)),
            Some(c) => c.eligibility_threshold,
        };
        let mut b: Vec<bool> = Vec::new();
        let mut i: usize = 0;
        while i < asset_ids.len()
            invariant
                i <= asset_ids@.len(),
                self@.wf(),
                self@.config matches Some(c) && c.eligibility_threshold == threshold,
                forall|j: int| 0 <= j < i ==> call@.assets.contains_key(#[trigger] asset_ids@[j]),
                b@ =~= eligibilities(self@, call@, asset_ids@.take(i as int)),
            decreases asset_ids@.len() - i,
        {
            let id: u64 = asset_ids[i];
            match call.asset(id) {
                None => {
                    return Err(Abort::Error(LifecycleError::AssetNotFound));
                },
                Some(info) => {
                    let score: u32 = self.score_of(info, call.now, id);
                    b.push(score >= threshold);
                },
            }
            i += 1;
        }
        assert(asset_ids@.take(asset_ids@.len() as int) =~= asset_ids@);
        Ok(b)
    }

    /// Whether a loan can be had against the asset; its threshold and amount have to be positive.
    pub fn request_loan(&self, call: &Call, asset_id: u64, threshold: u32, amount: i128) -> (r:
        Result<bool, Abort>)
        requires
            self@.wf(),
        ensures
            r == answer(
                if threshold == 0 || amount <= 0 {
                    error(LifecycleError::InvalidConfig)
                } else {
                    score_check(self@, call@, asset_id)
                },
                eligible(self@, call@.assets[asset_id], call@.now, asset_id),
            ),
    {
        if threshold == 0 || amount <= 0 {
            return Err(Abort::Error(LifecycleError::InvalidConfig));
        }
        self.is_collateral_eligible(call, asset_id)
    }

    /// Takes a snapshot of the condition of the asset, and gives it back.
    pub fn take_health_snapshot(&mut self, call: &Call, asset_id: u64) -> (r: Result<
        HealthSnapshot,
        Abort,
    >)
        requires
            old(self)@.wf(),
        ensures
            match score_check(old(self)@, call@, asset_id) {
                Some(e) => r == Err::<HealthSnapshot, Abort>(e) && final(self)@ == old(self)@,
                None => {
                    let a = old(self)@.asset(asset_id);
                    r matches Ok(snapshot) && snapshot.timestamp == call@.now && snapshot.score
                        == faded(a, old(self)@.config->0, call@.now) && snapshot.maintenance_count
                        == a.history.len() && is_last_service(
                        a.history,
                        snapshot.last_service_date,
                    ) && final(self)@ == old(self)@.with_asset(
                        asset_id,
                        AssetView { snapshots: a.snapshots.push(snapshot), ..a },
                    )
                },
            },
            final(self)@.wf(),
    {
        if let Err(e) = self.begin_score(call, asset_id) {
            return Err(e);
        }
        let config = match self.load_config() {
            Some(c) => c,
            None => return Err(Abort::Error(LifecycleError::NotInitialized)),
        };
        let mut asset = self.load_asset(asset_id);
        let last_service_date: u64 = match latest_record(&asset.history) {
            None => 0,
            Some(i) => {
                assert(is_latest(asset@.history, i as int));
                asset.history[i].timestamp
            },
        };
        assert(records(asset.history@).len() == asset.history@.len());
        let snapshot = HealthSnapshot {
            timestamp: call.now,
            score: compute_faded(&asset, &config, call.now),
            maintenance_count: asset.history.len() as u32,
            last_service_date,
        };
        asset.snapshots.push(snapshot);
        self.store_asset(asset_id, asset);
        Ok(snapshot)
    }

    /// The health snapshots of the asset, oldest first.
    pub fn get_health_snapshots(&self, asset_id: u64) -> (r: Vec<HealthSnapshot>)
        ensures
            r@ == self@.asset(asset_id).snapshots,
    {
        copy_list(&self.load_asset(asset_id).snapshots)
    }
}

} // verus!
