//! Laws of scores.

use vstd::prelude::*;

use crate::arith::monus;
use crate::call::{AssetInfo, CallView};
use crate::lists::keep_last;
use crate::maintenance::{score_after, submitted};
use crate::names::{Address, Symbol};
use crate::ownership::decommission_notify_result;
use crate::scores::{
    after_decay, current_score, decay_check, decay_value, eligible, reset_score_result, score_given,
    stored_score,
};
use crate::scoring::{
    age, base_increment, collateral_score, contribution, contributions, decayed, faded, intervals,
    recency, reward, scaled, scored, scores_with, weights_of, MAX_AGE_LEDGERS, MAX_SCORE,
    MIN_SCORE_WITH_HISTORY,
};
use crate::state::State;
use crate::types::{AssetView, BatchView, ConfigView, Priority, ScoreEntry};
use crate::weights::FrequencyWeights;

verus! {

/// No score that is told exceeds 100, whatever the recency score.
pub proof fn scores_never_exceed_the_maximum(
    s: State,
    info: AssetInfo,
    call: CallView,
    asset_id: u64,
    recency_score: u32,
)
    requires
        s.wf(),
        s.config is Some,
    ensures
        score_given(s, info, call.now, asset_id, recency_score) <= MAX_SCORE,
        current_score(s, info, call.now, asset_id) <= MAX_SCORE,
        stored_score(s, info, call.now, asset_id) <= MAX_SCORE,
        decay_value(s, call, asset_id) <= MAX_SCORE,
        recency(s.asset(asset_id), call.now) <= MAX_SCORE,
{
    lemma_contributions(s.asset(asset_id), s.asset(asset_id).history.len(), call.now);
    lemma_no_loss_below_zero(s.asset(asset_id), s.config->0, call.now);
}

/// What a record adds is not negative.
proof fn lemma_contribution(a: AssetView, i: int, now: u64)
    ensures
        contribution(a, i, now) >= 0,
{
    let b = a.credits[i] as int;
    let m = monus(MAX_AGE_LEDGERS as int, age(a.history[i], now));
    assert(b * m >= 0) by (nonlinear_arith)
        requires
            b >= 0,
            m >= 0,
    ;
}

/// What records add up to is not negative.
proof fn lemma_contributions(a: AssetView, n: nat, now: u64)
    ensures
        contributions(a, n, now) >= 0,
    decreases n,
{
    if n > 0 {
        lemma_contributions(a, (n - 1) as nat, now);
        lemma_contribution(a, n - 1, now);
    }
}

/// An asset with a record has a score of at least 1, unless it is deprecated or out of service.
pub proof fn serviced_assets_have_a_score(
    s: State,
    info: AssetInfo,
    now: u64,
    asset_id: u64,
    recency_score: u32,
)
    requires
        s.asset(asset_id).history.len() > 0,
        !info.deprecated,
        !s.asset(asset_id).frozen,
    ensures
        score_given(s, info, now, asset_id, recency_score) >= MIN_SCORE_WITH_HISTORY,
        current_score(s, info, now, asset_id) >= MIN_SCORE_WITH_HISTORY,
        stored_score(s, info, now, asset_id) >= MIN_SCORE_WITH_HISTORY,
{
}

/// An asset without a record and without a stored score has the score 0.
pub proof fn unserviced_assets_have_no_score(
    a: AssetView,
    c: ConfigView,
    weights: Option<FrequencyWeights>,
    now: u64,
    recency_score: u32,
)
    requires
        c.wf(),
        a.history.len() == 0,
        a.score == 0,
    ensures
        decayed(a, c, now) == 0,
        collateral_score(a, c, weights, now, recency_score) == 0,
{
    lemma_no_loss_below_zero(a, c, now);
    if let Some(w) = weights {
        let m = w.multiplier(
            crate::arith::capped(
                crate::history::recent(a.history, now, w.window_days).len() as int,
            ) as nat,
        );
        assert(0int * m == 0);
    }
}

proof fn lemma_no_loss_below_zero(a: AssetView, c: ConfigView, now: u64)
    requires
        c.wf(),
    ensures
        0 <= faded(a, c, now) <= a.score,
        faded(a, c, now) == monus(a.score as int, intervals(a, c, now) * c.decay_rate),
{
    lemma_intervals(a, c, now);
    let n = intervals(a, c, now);
    let r = c.decay_rate as int;
    assert(n * r >= 0) by (nonlinear_arith)
        requires
            n >= 0,
            r >= 0,
    ;
}

/// A score loses the decay rate with every full decay interval, and never falls below zero.
pub proof fn scores_lose_the_rate_with_every_interval(a: AssetView, c: ConfigView, now: u64)
    requires
        c.wf(),
    ensures
        faded(a, c, now) == monus(a.score as int, intervals(a, c, now) * c.decay_rate),
        faded(a, c, now) <= a.score,
{
    lemma_no_loss_below_zero(a, c, now);
}

proof fn lemma_intervals(a: AssetView, c: ConfigView, now: u64)
    requires
        c.wf(),
    ensures
        0 <= intervals(a, c, now),
{
    let t = match a.last_update {
        Some(t) => t as int,
        None => 0,
    };
    let d = monus(now as int, t);
    let i = c.decay_interval as int;
    assert(d / i >= 0) by (nonlinear_arith)
        requires
            d >= 0,
            i > 0,
    ;
}

/// Without service a score does not rise.
pub proof fn scores_do_not_rise_by_themselves(a: AssetView, c: ConfigView, early: u64, late: u64)
    requires
        c.wf(),
        early <= late,
    ensures
        decayed(a, c, late) <= decayed(a, c, early),
{
    let t = match a.last_update {
        Some(t) => t as int,
        None => 0,
    };
    let i = c.decay_interval as int;
    let (x, y) = (monus(early as int, t), monus(late as int, t));
    assert(x / i <= y / i) by (nonlinear_arith)
        requires
            x <= y,
            i > 0,
    ;
    scores_lose_the_rate_with_every_interval(a, c, early);
    scores_lose_the_rate_with_every_interval(a, c, late);
    let (m, n, r) = (intervals(a, c, early), intervals(a, c, late), c.decay_rate as int);
    assert(m * r <= n * r) by (nonlinear_arith)
        requires
            m <= n,
            r >= 0,
    ;
}

/// Bringing a score up to date a second time at the same time changes nothing, and what is told
/// is what is stored.
pub proof fn decay_is_idempotent(s: State, call: CallView, asset_id: u64)
    requires
        s.wf(),
        decay_check(s, asset_id) is None,
    ensures
        after_decay(after_decay(s, call, asset_id), call, asset_id) == after_decay(
            s,
            call,
            asset_id,
        ),
        decay_value(after_decay(s, call, asset_id), call, asset_id) == decay_value(
            s,
            call,
            asset_id,
        ),
{
    let a = s.asset(asset_id);
    let c = s.config->0;
    let t = after_decay(s, call, asset_id);
    if !(a.frozen || a.score == 0 || intervals(a, c, call.now) == 0) {
        let b = t.asset(asset_id);
        assert(b.last_update == Some(call.now));
        let i = c.decay_interval as int;
        assert(0int / i == 0) by (nonlinear_arith)
            requires
                i > 0,
        ;
        assert(intervals(b, c, call.now) == 0);
        scores_lose_the_rate_with_every_interval(b, c, call.now);
        assert(0int * c.decay_rate == 0);
        assert(faded(b, c, call.now) == b.score);
    }
}

/// Bringing the score of one asset up to date touches no other asset.
pub proof fn decay_touches_one_asset(s: State, call: CallView, asset_id: u64, other: u64)
    requires
        other != asset_id,
    ensures
        after_decay(s, call, asset_id).asset(other) == s.asset(other),
        after_decay(s, call, asset_id).engineers == s.engineers,
        after_decay(s, call, asset_id).config == s.config,
{
}

/// A submission never lowers the stored score, and raises it by the reward up to the maximum.
pub proof fn submissions_raise_the_score(
    s: State,
    call: CallView,
    asset_id: u64,
    task_type: Symbol,
    priority: Priority,
    notes: Seq<u8>,
    engineer: Address,
    cost: Option<u64>,
)
    requires
        s.wf(),
        submitted(s, call, asset_id, task_type, priority, notes, engineer, cost) is Ok,
    ensures
        ({
            let t = submitted(s, call, asset_id, task_type, priority, notes, engineer, cost)->Ok_0;
            let gain = reward(s.config->0, task_type, call.engineer(engineer).reputation);
            &&& t.asset(asset_id).score >= s.asset(asset_id).score
            &&& t.asset(asset_id).score == if s.asset(asset_id).score + gain <= MAX_SCORE {
                s.asset(asset_id).score + gain
            } else {
                MAX_SCORE as int
            }
        }),
{
}

/// At a reputation of 500 a service earns its base increment; at 0 a half of it; and at 1000 one
/// and a half times as much, as far as that fits 32 bits.
pub proof fn reputation_scales_the_reward(c: ConfigView, t: Symbol)
    ensures
        reward(c, t, 500) == base_increment(c, t),
        reward(c, t, 0) == base_increment(c, t) / 2,
        base_increment(c, t) * 3 / 2 <= u32::MAX ==> reward(c, t, 1000) == base_increment(c, t) * 3
            / 2,
{
    let b = base_increment(c, t) as int;
    assert(b * 1000 / 1000 == b);
    assert(b * 500 / 1000 == b / 2);
    assert(b * 1500 / 1000 == b * 3 / 2);
}

/// A higher reputation never earns less, as long as the reward fits 32 bits.
pub proof fn higher_reputation_earns_no_less(c: ConfigView, t: Symbol, low: u32, high: u32)
    requires
        low <= high,
        scaled(base_increment(c, t), high) / 1000 <= u32::MAX,
    ensures
        reward(c, t, low) <= reward(c, t, high),
{
    let b = base_increment(c, t) as int;
    assert(0 <= b * (500 + low) <= b * (500 + high)) by (nonlinear_arith)
        requires
            b >= 0,
            0 <= low <= high,
    ;
}

/// The score after a batch is the starting score plus all rewards, at most the maximum.
pub proof fn batches_add_their_rewards(
    c: ConfigView,
    start: u32,
    list: Seq<BatchView>,
    reputation: u32,
)
    requires
        start <= MAX_SCORE,
        score_after(c, start, list, reputation) is Some,
    ensures
        score_after(c, start, list, reputation)->0 == if start + rewards(c, list, reputation)
            <= MAX_SCORE {
            start + rewards(c, list, reputation)
        } else {
            MAX_SCORE as int
        },
        rewards(c, list, reputation) >= 0,
    decreases list.len(),
{
    if list.len() > 0 {
        batches_add_their_rewards(c, start, list.drop_last(), reputation);
    }
}

/// The rewards of all records of a batch, added up.
pub open spec fn rewards(c: ConfigView, list: Seq<BatchView>, reputation: u32) -> int
    decreases list.len(),
{
    if list.len() == 0 {
        0
    } else {
        rewards(c, list.drop_last(), reputation) + reward(c, list.last().task_type, reputation)
    }
}

/// Two scores of one time leave one entry, the later one, in the list of scores.
pub proof fn scores_of_one_time_merge(
    list: Seq<ScoreEntry>,
    first: ScoreEntry,
    second: ScoreEntry,
    max: u32,
)
    requires
        max > 0,
        first.timestamp == second.timestamp,
    ensures
        scores_with(scores_with(list, first, max), second, max) == scores_with(list, second, max),
{
    let before = if list.len() > 0 && list.last().timestamp == first.timestamp {
        list.drop_last()
    } else {
        list
    };
    let once = scores_with(list, first, max);
    assert(once.last() == first);
    assert(keep_last(once.drop_last().push(second), max as nat) =~= keep_last(
        before.push(second),
        max as nat,
    ));
}

/// The lists of scores and of valuations never hold more than the history's length.
pub proof fn score_lists_are_bounded(a: AssetView, score: u32, now: u64, max_history: u32)
    ensures
        scored(a, score, now, max_history).score_history.len() <= max_history,
        scored(a, score, now, max_history).valuations.len() <= max_history,
{
}

/// The latest valuation is the score that was reached last.
pub proof fn valuations_follow_the_score(a: AssetView, score: u32, now: u64, max_history: u32)
    requires
        max_history > 0,
    ensures
        ({
            let b = scored(a, score, now, max_history);
            &&& b.valuations.last() == (now, score as u64)
            &&& b.score_history.last() == (ScoreEntry { timestamp: now, score })
            &&& b.score == score
        }),
{
}

/// After a reset the asset has no history and the score 0, until it is serviced again.
pub proof fn reset_starts_again(
    s: State,
    call: CallView,
    admin: Address,
    asset_id: u64,
    info: AssetInfo,
    now: u64,
    recency_score: u32,
)
    requires
        s.wf(),
        reset_score_result(s, call, admin, asset_id) is Ok,
    ensures
        ({
            let t = reset_score_result(s, call, admin, asset_id)->Ok_0;
            &&& t.asset(asset_id).history.len() == 0
            &&& t.asset(asset_id).score == 0
            &&& score_given(t, info, now, asset_id, recency_score) == 0
            &&& current_score(t, info, now, asset_id) == 0
            &&& stored_score(t, info, now, asset_id) == 0
        }),
{
    let t = reset_score_result(s, call, admin, asset_id)->Ok_0;
    unserviced_assets_have_no_score(
        t.asset(asset_id),
        t.config->0,
        weights_of(crate::scores::weights_text(t, info)),
        now,
        recency_score,
    );
    unserviced_assets_have_no_score(
        t.asset(asset_id),
        t.config->0,
        weights_of(crate::scores::weights_text(t, info)),
        now,
        recency(t.asset(asset_id), now),
    );
}

/// An asset that is out of service has the score 0 at all times and is not eligible.
pub proof fn decommissioned_assets_are_worthless(
    s: State,
    call: CallView,
    asset_id: u64,
    info: AssetInfo,
    now: u64,
)
    requires
        s.wf(),
        decommission_notify_result(s, call, asset_id) is Ok,
    ensures
        ({
            let t = decommission_notify_result(s, call, asset_id)->Ok_0;
            &&& t.asset(asset_id).frozen
            &&& t.asset(asset_id).score == 0
            &&& current_score(t, info, now, asset_id) == 0
            &&& stored_score(t, info, now, asset_id) == 0
            &&& decay_value(t, call, asset_id) == 0
            &&& after_decay(t, call, asset_id) == t
            &&& !eligible(t, info, now, asset_id)
        }),
{
}

/// A record that has reached the greatest age adds nothing to the recency score, and one that is
/// marked as a duplicate never does.
pub proof fn old_records_add_nothing(a: AssetView, i: int, now: u64)
    ensures
        age(a.history[i], now) >= MAX_AGE_LEDGERS ==> contribution(a, i, now) == 0,
        a.duplicates.contains(a.history[i].timestamp) ==> contribution(a, i, now) == 0,
{
    assert(a.credits[i] * 0 == 0);
}

/// A fresh record adds its whole credit to the recency score.
pub proof fn fresh_records_add_their_credit(a: AssetView, now: u64)
    requires
        a.history.len() == 1,
        a.history[0].timestamp == now,
        !crate::history::is_transfer(a.history[0]),
        !a.duplicates.contains(now),
    ensures
        recency(a, now) == if a.credits[0] <= MAX_SCORE {
            a.credits[0]
        } else {
            MAX_SCORE
        },
{
    reveal_with_fuel(contributions, 2);
    let b = a.credits[0] as int;
    assert(age(a.history[0], now) == 0);
    assert((2 * (b * 518_400) + 518_399) / 1_036_800 == b);
}

/// What the first records add up to depends on them alone.
proof fn lemma_contributions_prefix(a: AssetView, b: AssetView, n: nat, now: u64)
    requires
        n <= a.history.len(),
        n <= b.history.len(),
        b.duplicates == a.duplicates,
        forall|i: int|
            0 <= i < n ==> #[trigger] b.history[i] == a.history[i] && b.credits[i] == a.credits[i],
    ensures
        contributions(b, n, now) == contributions(a, n, now),
    decreases n,
{
    if n > 0 {
        lemma_contributions_prefix(a, b, (n - 1) as nat, now);
        assert(b.history[n - 1] == a.history[n - 1]);
    }
}

/// An accepted submission does not lower the collateral score, as long as the history has room
/// for its record and no frequency weights are set for the type of the asset.
pub proof fn submissions_do_not_lower_the_collateral_score(
    s: State,
    call: CallView,
    asset_id: u64,
    task_type: Symbol,
    priority: Priority,
    notes: Seq<u8>,
    engineer: Address,
    cost: Option<u64>,
)
    requires
        s.wf(),
        submitted(s, call, asset_id, task_type, priority, notes, engineer, cost) is Ok,
        s.asset(asset_id).history.len() < s.config->0.max_history,
        !s.scoring_weights.contains_key(call.assets[asset_id].asset_type),
    ensures
        ({
            let t = submitted(s, call, asset_id, task_type, priority, notes, engineer, cost)->Ok_0;
            let info = call.assets[asset_id];
            current_score(t, info, call.now, asset_id) >= current_score(
                s,
                info,
                call.now,
                asset_id,
            )
        }),
{
    let t = submitted(s, call, asset_id, task_type, priority, notes, engineer, cost)->Ok_0;
    let (a, b) = (s.asset(asset_id), t.asset(asset_id));
    let (c, now) = (s.config->0, call.now);
    let n = a.history.len();
    lemma_contributions_prefix(a, b, n, now);
    lemma_contributions(a, n, now);
    lemma_contribution(b, n as int, now);
    assert(contributions(b, n + 1, now) >= contributions(a, n, now));
    assert(b.history.len() == n + 1);
    assert(recency(b, now) >= recency(a, now));
    lemma_no_loss_below_zero(a, c, now);
    let i = c.decay_interval as int;
    assert(0int / i == 0) by (nonlinear_arith)
        requires
            i > 0,
    ;
    assert(intervals(b, c, now) == 0);
    scores_lose_the_rate_with_every_interval(b, c, now);
    assert(0int * c.decay_rate == 0);
    assert(faded(b, c, now) == b.score);
}

} // verus!
