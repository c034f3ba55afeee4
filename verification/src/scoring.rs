//! Collateral scores: what a service earns, and how a score fades.

use vstd::prelude::*;

use crate::arith::{capped, least, low32, monus, truncate};
use crate::history::{is_transfer, is_transfer_type, recent, recent_maintenance_count};
use crate::lists::{copy_last, is_listed, keep_last};
use crate::names::{short_symbol, Symbol};
use crate::types::{Asset, AssetView, Config, ConfigView, RecordView, ScoreEntry};
use crate::weights::{read_weights, weights_in, FrequencyWeights};

verus! {

/// The highest score.
pub const MAX_SCORE: u32 = 100;

/// The lowest score of an asset that has a maintenance record: it stays distinguishable from one
/// that was never serviced.
pub const MIN_SCORE_WITH_HISTORY: u32 = 1;

/// The age, in ledgers, from which on a record adds nothing to the recency score: about 30 days.
pub const MAX_AGE_LEDGERS: u64 = 518_400;

/// How long a ledger takes, in seconds.
pub const LEDGER_SECS: u64 = 5;

/// The text `OIL_CHG`.
pub const OIL_CHG: u128 = 0x4f494c5f434847;

/// The text `LUBE`.
pub const LUBE: u128 = 0x4c554245;

/// The text `INSPECT`.
pub const INSPECT: u128 = 0x494e5350454354;

/// The text `FILTER`.
pub const FILTER: u128 = 0x46494c544552;

/// The text `ENGINE`.
pub const ENGINE: u128 = 0x454e47494e45;

/// The text `OVERHAUL`.
pub const OVERHAUL: u128 = 0x4f5645524841554c;

/// The text `REBUILD`.
pub const REBUILD: u128 = 0x52454255494c44;

/// The text `BEARING`.
pub const BEARING: u128 = 0x42454152494e47;

/// The text `COOLANT`.
pub const COOLANT: u128 = 0x434f4f4c414e54;

/// The text `FUEL`.
pub const FUEL: u128 = 0x4655454c;

/// The text `MAINT`.
pub const MAINT: u128 = 0x4d41494e54;

/// Whether the task type is known without being configured.
pub open spec fn standard_task(t: Symbol) -> bool {
    ||| t == short_symbol(OIL_CHG)
    ||| t == short_symbol(LUBE)
    ||| t == short_symbol(INSPECT)
    ||| t == short_symbol(FILTER)
    ||| t == short_symbol(ENGINE)
    ||| t == short_symbol(OVERHAUL)
    ||| t == short_symbol(REBUILD)
    ||| t == short_symbol(BEARING)
    ||| t == short_symbol(COOLANT)
    ||| t == short_symbol(FUEL)
    ||| t == short_symbol(MAINT)
}

/// Whether the task type is known: by itself, or because a weight is configured for it.
pub open spec fn known_task(c: ConfigView, t: Symbol) -> bool {
    standard_task(t) || c.task_weights.contains_key(t)
}

/// What a service of the type earns before the engineer's reputation counts: the weight that is
/// configured for the type, and the general increment where none is.
pub open spec fn base_increment(c: ConfigView, t: Symbol) -> u32 {
    if c.task_weights.contains_key(t) {
        c.task_weights[t]
    } else {
        c.score_increment
    }
}

/// The base increment scaled by reputation: by a half at 0, by one and a half at 1000.
pub open spec fn scaled(base: u32, reputation: u32) -> int {
    base * (500 + reputation)
}

/// What a service of the type earns for an engineer of that reputation.
pub open spec fn reward(c: ConfigView, t: Symbol, reputation: u32) -> u32 {
    low32(scaled(base_increment(c, t), reputation) / 1000)
}

/// Whether the task type is known: by itself, or because a weight is configured for it.
pub fn is_known_task(c: &Config, t: Symbol) -> (b: bool)
    ensures
        b == known_task(c@, t),
{
    if t == Symbol::short(OIL_CHG) || t == Symbol::short(LUBE) || t == Symbol::short(INSPECT) || t
        == Symbol::short(FILTER) || t == Symbol::short(ENGINE) || t == Symbol::short(OVERHAUL) || t
        == Symbol::short(REBUILD) || t == Symbol::short(BEARING) || t == Symbol::short(COOLANT) || t
        == Symbol::short(FUEL) || t == Symbol::short(MAINT) {
        return true;
    }
    c.task_weights.get(t).is_some()
}

/// What a service of the type earns before the engineer's reputation counts.
pub fn get_task_weight(c: &Config, t: Symbol) -> (r: u32)
    ensures
        r == base_increment(c@, t),
{
    match c.task_weights.get(t) {
        Some(w) => *w,
        None => c.score_increment,
    }
}

/// What a service of the type earns for an engineer of that reputation.
pub fn compute_reward(c: &Config, t: Symbol, reputation: u32) -> (r: u32)
    ensures
        r == reward(c@, t, reputation),
{
    let base: u32 = get_task_weight(c, t);
    assert(0 <= base * (500 + reputation) <= 0xffff_ffff * 0x1_0000_01f3) by (nonlinear_arith)
        requires
            0 <= base <= 0xffff_ffff,
            0 <= reputation <= 0xffff_ffff,
    ;
    truncate(((base as u128) * (500 + reputation as u128) / 1000) as u64)
}

/// The score after `increment` more points, at most [`MAX_SCORE`].
pub open spec fn raised(score: u32, increment: u32) -> u32 {
    least(score + increment, MAX_SCORE as int) as u32
}

/// The score after `increment` more points, at most [`MAX_SCORE`].
pub fn raise(score: u32, increment: u32) -> (r: u32)
    ensures
        r == raised(score, increment),
{
    let sum: u32 = score.saturating_add(increment);
    if sum <= MAX_SCORE {
        sum
    } else {
        MAX_SCORE
    }
}

/// How many full decay intervals have passed since the score was last brought up to date.
pub open spec fn intervals(a: AssetView, c: ConfigView, now: u64) -> int {
    monus(
        now as int,
        match a.last_update {
            Some(t) => t as int,
            None => 0,
        },
    ) / (c.decay_interval as int)
}

/// The stored score less what it has lost since it was last brought up to date.
pub open spec fn faded(a: AssetView, c: ConfigView, now: u64) -> u32 {
    monus(a.score as int, intervals(a, c, now) * c.decay_rate) as u32
}

/// The score itself, and at least [`MIN_SCORE_WITH_HISTORY`] for an asset with a record.
pub open spec fn floored(a: AssetView, score: u32) -> u32 {
    if a.history.len() > 0 && score < MIN_SCORE_WITH_HISTORY {
        MIN_SCORE_WITH_HISTORY
    } else {
        score
    }
}

/// The score of the asset after its decay up to now.
pub open spec fn decayed(a: AssetView, c: ConfigView, now: u64) -> u32 {
    floored(a, faded(a, c, now))
}

/// How many full decay intervals have passed since the score was last brought up to date.
pub fn elapsed_intervals(a: &Asset, c: &Config, now: u64) -> (n: u64)
    requires
        c@.wf(),
    ensures
        n == intervals(a@, c@, now),
{
    let last: u64 = match a.last_update {
        Some(t) => t,
        None => 0,
    };
    now.saturating_sub(last) / c.decay_interval
}

/// The stored score less what it has lost since it was last brought up to date.
pub fn compute_faded(a: &Asset, c: &Config, now: u64) -> (r: u32)
    requires
        c@.wf(),
    ensures
        r == faded(a@, c@, now),
        r <= a.score,
{
    let n: u64 = elapsed_intervals(a, c, now);
    assert(0 <= n * c.decay_rate <= 0xffff_ffff_ffff_ffff * 0xffff_ffff) by (nonlinear_arith)
        requires
            0 <= n <= 0xffff_ffff_ffff_ffff,
            0 <= c.decay_rate <= 0xffff_ffff,
    ;
    let loss: u128 = (n as u128) * (c.decay_rate as u128);
    if loss >= a.score as u128 {
        0
    } else {
        a.score - loss as u32
    }
}

/// The score itself, and at least [`MIN_SCORE_WITH_HISTORY`] for an asset with a record.
pub fn apply_floor(a: &Asset, score: u32) -> (r: u32)
    ensures
        r == floored(a@, score),
{
    if a.history.len() > 0 && score < MIN_SCORE_WITH_HISTORY {
        MIN_SCORE_WITH_HISTORY
    } else {
        score
    }
}

/// The score of the asset after its decay up to now.
pub fn compute_decayed(a: &Asset, c: &Config, now: u64) -> (r: u32)
    requires
        c@.wf(),
    ensures
        r == decayed(a@, c@, now),
{
    apply_floor(a, compute_faded(a, c, now))
}

/// The list of scores after `e`: it takes the place of an entry of the same time, and no more
/// than `max` entries stay.
pub open spec fn scores_with(list: Seq<ScoreEntry>, e: ScoreEntry, max: u32) -> Seq<ScoreEntry> {
    let before = if list.len() > 0 && list.last().timestamp == e.timestamp {
        list.drop_last()
    } else {
        list
    };
    keep_last(before.push(e), max as nat)
}

/// The list of valuations after the value `value` at `timestamp`, by the same rule.
pub open spec fn valuations_with(
    list: Seq<(u64, u64)>,
    timestamp: u64,
    value: u64,
    max: u32,
) -> Seq<(u64, u64)> {
    let before = if list.len() > 0 && list.last().0 == timestamp {
        list.drop_last()
    } else {
        list
    };
    keep_last(before.push((timestamp, value)), max as nat)
}

/// The asset after its score has become `score` at time `now`.
pub open spec fn scored(a: AssetView, score: u32, now: u64, max_history: u32) -> AssetView {
    AssetView {
        score,
        last_update: Some(now),
        score_history: scores_with(
            a.score_history,
            ScoreEntry { timestamp: now, score },
            max_history,
        ),
        valuations: valuations_with(a.valuations, now, score as u64, max_history),
        ..a
    }
}

/// Adds `e` to the list of scores.
fn score_history_push(list: &mut Vec<ScoreEntry>, e: ScoreEntry, max: u32)
    ensures
        final(list)@ == scores_with(old(list)@, e, max),
{
    if list.len() > 0 && list[list.len() - 1].timestamp == e.timestamp {
        let _ = list.pop();
    }
    list.push(e);
    *list = copy_last(list, max);
}

/// Adds a valuation to the list.
fn valuation_history_push(list: &mut Vec<(u64, u64)>, timestamp: u64, value: u64, max: u32)
    ensures
        final(list)@ == valuations_with(old(list)@, timestamp, value, max),
{
    if list.len() > 0 && list[list.len() - 1].0 == timestamp {
        let _ = list.pop();
    }
    list.push((timestamp, value));
    *list = copy_last(list, max);
}

/// Lets the score of the asset be `score` from time `now` on.
pub fn set_score(a: &mut Asset, score: u32, now: u64, max_history: u32)
    ensures
        final(a)@ == scored(old(a)@, score, now, max_history),
{
    a.score = score;
    a.last_update = Some(now);
    score_history_push(&mut a.score_history, ScoreEntry { timestamp: now, score }, max_history);
    valuation_history_push(&mut a.valuations, now, score as u64, max_history);
}

/// A well-formed asset stays well-formed when its score becomes another score.
pub proof fn lemma_scored_wf(a: AssetView, score: u32, now: u64, max_history: u32)
    requires
        a.wf(),
        score <= MAX_SCORE,
    ensures
        scored(a, score, now, max_history).wf(),
{
    let b = scored(a, score, now, max_history);
    let e = ScoreEntry { timestamp: now, score };
    let s = if a.score_history.len() > 0 && a.score_history.last().timestamp == now {
        a.score_history.drop_last()
    } else {
        a.score_history
    };
    let v = if a.valuations.len() > 0 && a.valuations.last().0 == now {
        a.valuations.drop_last()
    } else {
        a.valuations
    };
    assert forall|i: int| 0 <= i < s.push(e).len() implies (#[trigger] s.push(e)[i]).score
        <= 100 by {
        if i < s.len() {
            assert(a.score_history[i].score <= 100);
        }
    }
    let w = v.push((now, score as u64));
    assert forall|i: int| 0 <= i < w.len() implies (#[trigger] w[i]).1 <= 100 by {
        if i < v.len() {
            assert(a.valuations[i].1 <= 100);
        }
    }
    assert forall|i: int| 0 <= i < b.score_history.len() implies (
    #[trigger] b.score_history[i]).score <= 100 by {
        let n = s.push(e).len();
        if n > max_history {
            assert(b.score_history[i] == s.push(e)[i + n - max_history]);
        }
    }
    assert forall|i: int| 0 <= i < b.valuations.len() implies (#[trigger] b.valuations[i]).1
        <= 100 by {
        if w.len() > max_history {
            assert(b.valuations[i] == w[i + w.len() - max_history]);
        }
    }
}

/// The score scaled by how often the asset has been serviced of late.
pub open spec fn weighted(
    a: AssetView,
    weights: Option<FrequencyWeights>,
    score: u32,
    now: u64,
) -> u32 {
    match weights {
        None => score,
        Some(w) => low32(
            score * w.multiplier(capped(recent(a.history, now, w.window_days).len() as int) as nat)
                / 100,
        ),
    }
}

/// The collateral score of the asset: the lower of its recency score and of its decayed score,
/// scaled by how often it has been serviced, within the limits of a score.
pub open spec fn collateral_score(
    a: AssetView,
    c: ConfigView,
    weights: Option<FrequencyWeights>,
    now: u64,
    recency_score: u32,
) -> u32 {
    let score = least(recency_score as int, faded(a, c, now) as int) as u32;
    floored(a, least(weighted(a, weights, score, now) as int, MAX_SCORE as int) as u32)
}

/// The weights in the text, where there is one.
pub open spec fn weights_of(json: Option<Seq<u8>>) -> Option<FrequencyWeights> {
    match json {
        Some(text) => weights_in(text),
        None => None,
    }
}

/// The score scaled by how often the asset has been serviced of late.
pub fn apply_dynamic_frequency_weight(
    a: &Asset,
    weights_json: Option<&Vec<u8>>,
    score: u32,
    now: u64,
) -> (r: u32)
    ensures
        r == weighted(
            a@,
            weights_of(
                match weights_json {
                    Some(w) => Some(w@),
                    None => None,
                },
            ),
            score,
            now,
        ),
{
    let weights: Option<FrequencyWeights> = match weights_json {
        None => None,
        Some(text) => read_weights(text.as_slice()),
    };
    match weights {
        None => score,
        Some(w) => {
            let count: u32 = recent_maintenance_count(&a.history, now, w.window_days);
            let multiplier: u32 = if count >= w.high_threshold {
                w.high
            } else if count >= w.medium_threshold {
                w.medium
            } else {
                w.low
            };
            assert(0 <= score * multiplier <= 0xffff_ffff * 0xffff_ffff) by (nonlinear_arith)
                requires
                    0 <= score <= 0xffff_ffff,
                    0 <= multiplier <= 0xffff_ffff,
            ;
            truncate((score as u64) * (multiplier as u64) / 100)
        },
    }
}

/// The collateral score of the asset, from its recency score and from what is kept of it.
pub fn compute_read_only_collateral_score(
    a: &Asset,
    c: &Config,
    weights_json: Option<&Vec<u8>>,
    now: u64,
    recency_score: u32,
) -> (r: u32)
    requires
        c@.wf(),
    ensures
        r == collateral_score(
            a@,
            c@,
            weights_of(
                match weights_json {
                    Some(w) => Some(w@),
                    None => None,
                },
            ),
            now,
            recency_score,
        ),
{
    let config_score: u32 = compute_faded(a, c, now);
    let score: u32 = if recency_score <= config_score {
        recency_score
    } else {
        config_score
    };
    let weighted_score: u32 = apply_dynamic_frequency_weight(a, weights_json, score, now);
    if weighted_score <= MAX_SCORE {
        apply_floor(a, weighted_score)
    } else {
        apply_floor(a, MAX_SCORE)
    }
}

/// How many ledgers old the record is.
pub open spec fn age(r: RecordView, now: u64) -> int {
    monus(now as int, r.timestamp as int) / (LEDGER_SECS as int)
}

/// What record `i` adds to the recency score, in parts of [`MAX_AGE_LEDGERS`]: its credit, which
/// fades with its age. A change of owner and a record that is marked as a duplicate add nothing.
pub open spec fn contribution(a: AssetView, i: int, now: u64) -> int {
    let r = a.history[i];
    if is_transfer(r) || a.duplicates.contains(r.timestamp) {
        0
    } else {
        a.credits[i] * monus(MAX_AGE_LEDGERS as int, age(r, now))
    }
}

/// What the first `n` records add to the recency score.
pub open spec fn contributions(a: AssetView, n: nat, now: u64) -> int
    decreases n,
{
    if n == 0 {
        0
    } else {
        contributions(a, (n - 1) as nat, now) + contribution(a, n - 1, now)
    }
}

/// The nearest whole number of points in `parts`, of which [`MAX_AGE_LEDGERS`] make a point; a
/// half does not count.
pub open spec fn points(parts: int) -> int {
    (2 * parts + MAX_AGE_LEDGERS - 1) / (2 * MAX_AGE_LEDGERS)
}

/// The recency score of the asset: what its records add up to, at most [`MAX_SCORE`].
pub open spec fn recency(a: AssetView, now: u64) -> u32 {
    least(points(contributions(a, a.history.len(), now)), MAX_SCORE as int) as u32
}

/// What record `i` adds to the recency score.
fn contribution_of(a: &Asset, i: usize, now: u64) -> (n: u64)
    requires
        i < a.history@.len() == a.credits@.len(),
    ensures
        n == contribution(a@, i as int, now),
        n <= 0x8_0000_0000_0000,
{
    let r = &a.history[i];
    assert(a@.history[i as int] == r@);
    if is_transfer_type(r.task_type) || is_listed(&a.duplicates, r.timestamp) {
        return 0;
    }
    let credit: u32 = a.credits[i];
    let age: u64 = now.saturating_sub(r.timestamp) / LEDGER_SECS;
    let weight: u64 = MAX_AGE_LEDGERS.saturating_sub(age);
    assert(0 <= credit * weight <= 0xffff_ffff * 518_400) by (nonlinear_arith)
        requires
            0 <= credit <= 0xffff_ffff,
            0 <= weight <= 518_400,
    ;
    (credit as u64) * weight
}

/// The recency score of the asset.
pub fn compute_recency(a: &Asset, now: u64) -> (r: u32)
    requires
        a@.wf(),
    ensures
        r == recency(a@, now),
{
    let mut total: u128 = 0;
    let mut i: usize = 0;
    assert(a@.history.len() == a.history@.len());
    while i < a.history.len()
        invariant
            i <= a.history@.len() == a.credits@.len(),
            total == contributions(a@, i as nat, now),
            total <= i * 0x8_0000_0000_0000,
        decreases a.history@.len() - i,
    {
        let n: u64 = contribution_of(a, i, now);
        total = total + n as u128;
        i += 1;
    }
    let ledgers: u128 = MAX_AGE_LEDGERS as u128;
    let score: u128 = (2 * total + ledgers - 1) / (2 * ledgers);
    if score <= MAX_SCORE as u128 {
        score as u32
    } else {
        MAX_SCORE
    }
}

} // verus!
